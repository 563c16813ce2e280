//! The assignment controller: a state machine over the group catalog, the
//! operator's selection, and the in-flight flag.
//!
//! The controller owns no transport. The caller creates it, delivers each
//! [`Msg`] through [`AddUserToGroupComponent::update`], and performs the
//! [`Effect`] that comes back: issuing the list query or the add mutation,
//! or invoking the owner's success or error callback.

use crate::group::contains_id;
use crate::group::distinct_ids;
use crate::group::find_by_id;
use crate::group::find_group_by_id;
use crate::group::is_assigned;
use crate::group::selectable;
use crate::group::Group;
use vstd::prelude::*;

verus! {

/// Configuration supplied by the owning context: the user being edited and
/// the groups that user already belongs to.
#[derive(Debug)]
pub struct Props {
    pub username: String,
    pub groups: Vec<Group>,
}

/// An event delivered to the controller: a response to one of the two
/// backend operations, the submit affordance being triggered, or the
/// operator changing the selection (by group id, or none to clear it).
#[derive(Debug)]
pub enum Msg {
    GroupListResponse(Result<Vec<Group>, String>),
    SubmitAddGroup,
    AddGroupResponse(Result<(), String>),
    SelectionChanged(Option<i64>),
}

/// What the caller must do after a transition: nothing, issue the
/// list-groups query, issue the add-user-to-group mutation, invoke the
/// owner's success callback, or invoke the owner's error callback.
#[derive(Debug, PartialEq)]
pub enum Effect {
    NoEffect,
    FetchGroupList,
    SubmitAddUserToGroup { username: String, group_id: i64 },
    UserAddedToGroup(Group),
    ReportError(String),
}

/// The controller state: the owner-supplied configuration, the catalog
/// (absent until the fetch resolves), the operator's selection, and
/// whether a request is in flight.
#[derive(Debug)]
pub struct AddUserToGroupComponent {
    pub username: String,
    pub groups: Vec<Group>,
    pub group_list: Option<Vec<Group>>,
    pub selected_group: Option<Group>,
    pub in_flight: bool,
}

impl AddUserToGroupComponent {
    /// The list the operator may currently choose from: the catalog minus
    /// the assigned groups, or empty while the catalog is absent.
    pub open spec fn spec_selectable(self) -> Seq<Group> {
        match self.group_list {
            Some(catalog) => selectable(catalog@, self.groups@),
            None => Seq::empty(),
        }
    }

    /// Well-formedness: catalog ids are unique, and the selection, if
    /// present, is a member of the selectable list.
    pub open spec fn wf(self) -> bool {
        &&& (self.group_list matches Some(catalog) ==> distinct_ids(catalog@))
        &&& (self.selected_group matches Some(g) ==> self.spec_selectable().contains(g))
    }
}

impl AddUserToGroupComponent {
    /// Activation: build the loading state and issue the one list-groups
    /// request. The catalog is absent, nothing is selected, and the fetch
    /// is in flight.
    pub fn create(props: Props) -> (r: (Self, Effect))
        ensures
            r.0.wf(),
            r.0.username == props.username,
            r.0.groups == props.groups,
            r.0.group_list is None,
            r.0.selected_group is None,
            r.0.in_flight,
            r.1 == Effect::FetchGroupList,
    {
        let mut res = AddUserToGroupComponent {
            username: props.username,
            groups: props.groups,
            group_list: None,
            selected_group: None,
            in_flight: false,
        };
        let effect = res.get_group_list();
        (res, effect)
    }

    /// Issue the list-groups request: raises the in-flight flag and hands
    /// the fetch effect to the caller.
    fn get_group_list(&mut self) -> (effect: Effect)
        ensures
            *final(self) == (AddUserToGroupComponent { in_flight: true, ..*old(self) }),
            effect == Effect::FetchGroupList,
    {
        self.in_flight = true;
        Effect::FetchGroupList
    }

    /// The selectable groups derived from the given catalog: the catalog
    /// minus this user's assigned groups, in catalog order.
    pub fn get_selectable_group_list(&self, group_list: &Vec<Group>) -> (r: Vec<Group>)
        ensures
            r@ == selectable(group_list@, self.groups@),
    {
        crate::group::derive_selectable_list(group_list, &self.groups)
    }

    /// Whether the submit affordance is enabled: a selection is present
    /// and no request is in flight.
    pub fn can_submit(&self) -> (r: bool)
        ensures
            r == (self.selected_group is Some && !self.in_flight),
    {
        self.selected_group.is_some() && !self.in_flight
    }

    /// Whether the catalog has not arrived yet, so only a loading
    /// indicator may be shown.
    pub fn is_loading(&self) -> (r: bool)
        ensures
            r == (self.group_list is None),
    {
        self.group_list.is_none()
    }

    /// Whether a fetch or submission response is still pending.
    pub fn is_task_running(&self) -> (r: bool)
        ensures
            r == self.in_flight,
    {
        self.in_flight
    }

    /// Submit the current selection: a no-op reporting no redraw when the
    /// selection is absent (stale affordance) or a request is already in
    /// flight (no second outbound mutation); otherwise raises the
    /// in-flight flag and issues the add mutation for this user and the
    /// selected group's id.
    pub fn submit_add_group(&mut self) -> (r: (bool, Effect))
        requires
            old(self).wf(),
        ensures
            final(self).wf(),
            *final(self) == submit_state(*old(self)),
            r == submit_outcome(*old(self)),
            old(self).selected_group is None ==> (*final(self) == *old(self) && r == (
                false,
                Effect::NoEffect,
            )),
            old(self).in_flight ==> (*final(self) == *old(self) && r == (false, Effect::NoEffect)),
    {
        let group_id = match &self.selected_group {
            None => {
                return (false, Effect::NoEffect);
            },
            Some(group) => group.id,
        };
        if self.in_flight {
            return (false, Effect::NoEffect);
        }
        self.in_flight = true;
        (
            true,
            Effect::SubmitAddUserToGroup { username: self.username.clone(), group_id },
        )
    }

    /// Set or clear the selection. A concrete candidate is an id from the
    /// selectable list (the interaction layer's payload is not trusted:
    /// the group is re-resolved from the list by id). Reports whether the
    /// presence of a selection flipped, so the caller knows whether to
    /// redraw the submit affordance.
    pub fn select(&mut self, candidate: Option<i64>) -> (redraw: bool)
        requires
            old(self).wf(),
            candidate matches Some(id) ==> contains_id(old(self).spec_selectable(), id as int),
        ensures
            final(self).wf(),
            *final(self) == select_state(*old(self), candidate),
            redraw == select_redraw(*old(self), candidate),
    {
        let was_some = self.selected_group.is_some();
        match candidate {
            None => {
                self.selected_group = None;
            },
            Some(id) => {
                let list = match &self.group_list {
                    Some(catalog) => self.get_selectable_group_list(catalog),
                    None => Vec::new(),
                };
                proof {
                    crate::group::lemma_find_by_id(old(self).spec_selectable(), id as int);
                }
                self.selected_group = find_group_by_id(&list, id);
            },
        }
        self.selected_group.is_some() != was_some
    }

    /// The owning context supplied new props (a new username or a new set
    /// of assigned groups). The selection is kept only while it is still
    /// selectable: a selection whose identity the new props assign is no
    /// longer valid and is cleared. Reports whether the props differed.
    pub fn change(&mut self, props: Props) -> (redraw: bool)
        requires
            old(self).wf(),
        ensures
            final(self).wf(),
            final(self).username == props.username,
            final(self).groups == props.groups,
            final(self).group_list == old(self).group_list,
            final(self).in_flight == old(self).in_flight,
            redraw == !(props.username@ == old(self).username@ && crate::group::groups_alike(
                props.groups@,
                old(self).groups@,
            )),
            final(self).selected_group == (match old(self).selected_group {
                Some(g) => if is_assigned(props.groups@, g) {
                    None
                } else {
                    Some(g)
                },
                None => None::<Group>,
            }),
    {
        let unchanged = self.username == props.username && crate::group::groups_equal(
            &self.groups,
            &props.groups,
        );
        self.username = props.username;
        self.groups = props.groups;
        let stale = match &self.selected_group {
            Some(g) => crate::group::contains_group_id(&self.groups, g.id),
            None => false,
        };
        if stale {
            self.selected_group = None;
        }
        proof {
            if old(self).selected_group is Some {
                let g = old(self).selected_group->0;
                if !is_assigned(self.groups@, g) {
                    let catalog = old(self).group_list->Some_0;
                    crate::group::lemma_selectable_membership(catalog@, old(self).groups@, g);
                    crate::group::lemma_selectable_membership(catalog@, self.groups@, g);
                }
            }
        }
        !unchanged
    }

    /// Handle one event, as delivered by the caller's event loop: apply
    /// the [`step`] transition, returning the redraw report or the failure
    /// description together with the effect to perform.
    pub fn handle_msg(&mut self, msg: Msg) -> (r: (Result<bool, String>, Effect))
        requires
            old(self).wf(),
            msg_allowed(*old(self), msg),
        ensures
            final(self).wf(),
            (*final(self), r.0, r.1) == step(*old(self), msg),
    {
        match msg {
            Msg::GroupListResponse(response) => match response {
                Ok(groups) => {
                    self.group_list = Some(groups);
                    self.in_flight = false;
                    (Ok(true), Effect::NoEffect)
                },
                Err(e) => {
                    self.in_flight = false;
                    (Err(e), Effect::NoEffect)
                },
            },
            Msg::SubmitAddGroup => {
                let (redraw, effect) = self.submit_add_group();
                (Ok(redraw), effect)
            },
            Msg::AddGroupResponse(response) => match response {
                Ok(_) => {
                    self.in_flight = false;
                    let group = match &self.selected_group {
                        Some(g) => g.clone(),
                        None => vstd::pervasive::unreached(),
                    };
                    self.selected_group = None;
                    (Ok(true), Effect::UserAddedToGroup(group))
                },
                Err(e) => {
                    self.in_flight = false;
                    (Err(e), Effect::NoEffect)
                },
            },
            Msg::SelectionChanged(candidate) => {
                let redraw = self.select(candidate);
                (Ok(redraw), Effect::NoEffect)
            },
        }
    }

    /// Handle one event and report it to the presentation layer: a failed
    /// operation becomes the error-callback effect with a redraw, a
    /// successful one passes its redraw report and effect through.
    pub fn update(&mut self, msg: Msg) -> (r: (bool, Effect))
        requires
            old(self).wf(),
            msg_allowed(*old(self), msg),
        ensures
            final(self).wf(),
            *final(self) == step(*old(self), msg).0,
            r == reported(step(*old(self), msg).1, step(*old(self), msg).2),
    {
        let (result, effect) = self.handle_msg(msg);
        match result {
            Ok(redraw) => (redraw, effect),
            Err(e) => (true, Effect::ReportError(e)),
        }
    }
}

/// The state after `select`: the selection becomes the selectable group
/// with the candidate id, re-resolved from the list rather than trusted
/// from the interaction layer, or absent for a `None` candidate.
pub open spec fn select_state(
    s: AddUserToGroupComponent,
    candidate: Option<i64>,
) -> AddUserToGroupComponent {
    AddUserToGroupComponent {
        selected_group: match candidate {
            None => None,
            Some(id) => find_by_id(s.spec_selectable(), id as int),
        },
        ..s
    }
}

/// Whether `select` reports that a redraw is needed: the presence of a
/// selection flipped.
pub open spec fn select_redraw(s: AddUserToGroupComponent, candidate: Option<i64>) -> bool {
    (select_state(s, candidate).selected_group is Some) != (s.selected_group is Some)
}

/// The state after `submit_add_group`: the in-flight flag is raised
/// exactly when a selection is present and nothing is in flight.
pub open spec fn submit_state(s: AddUserToGroupComponent) -> AddUserToGroupComponent {
    if s.selected_group is Some && !s.in_flight {
        AddUserToGroupComponent { in_flight: true, ..s }
    } else {
        s
    }
}

/// What `submit_add_group` returns: the mutation is issued, and a redraw
/// reported, exactly when a selection is present and nothing is in flight.
pub open spec fn submit_outcome(s: AddUserToGroupComponent) -> (bool, Effect) {
    if s.selected_group is Some && !s.in_flight {
        (
            true,
            Effect::SubmitAddUserToGroup {
                username: s.username,
                group_id: s.selected_group->0.id,
            },
        )
    } else {
        (false, Effect::NoEffect)
    }
}

/// Which messages the protocol can deliver in state `s`: a response only
/// arrives while the matching request is outstanding, the catalog arrives
/// once with unique ids, a successful add never observes an absent
/// selection, and a selection event carries an id from the selectable
/// list.
pub open spec fn msg_allowed(s: AddUserToGroupComponent, msg: Msg) -> bool {
    match msg {
        Msg::GroupListResponse(response) => {
            &&& s.group_list is None
            &&& s.in_flight
            &&& (response matches Ok(groups) ==> distinct_ids(groups@))
        },
        Msg::SubmitAddGroup => true,
        Msg::AddGroupResponse(response) => {
            &&& s.in_flight
            &&& (response is Ok ==> s.selected_group is Some)
        },
        Msg::SelectionChanged(candidate) => {
            candidate matches Some(id) ==> contains_id(s.spec_selectable(), id as int)
        },
    }
}

/// One step of the state machine: the state after handling `msg`, the
/// redraw report or the failure description, and the effect the caller
/// must perform.
pub open spec fn step(
    s: AddUserToGroupComponent,
    msg: Msg,
) -> (AddUserToGroupComponent, Result<bool, String>, Effect) {
    match msg {
        Msg::GroupListResponse(response) => match response {
            Ok(groups) => (
                AddUserToGroupComponent { group_list: Some(groups), in_flight: false, ..s },
                Ok(true),
                Effect::NoEffect,
            ),
            Err(e) => (
                AddUserToGroupComponent { in_flight: false, ..s },
                Err(e),
                Effect::NoEffect,
            ),
        },
        Msg::SubmitAddGroup => (submit_state(s), Ok(submit_outcome(s).0), submit_outcome(s).1),
        Msg::AddGroupResponse(response) => match response {
            Ok(_) => (
                AddUserToGroupComponent { selected_group: None, in_flight: false, ..s },
                Ok(true),
                Effect::UserAddedToGroup(s.selected_group->0),
            ),
            Err(e) => (
                AddUserToGroupComponent { in_flight: false, ..s },
                Err(e),
                Effect::NoEffect,
            ),
        },
        Msg::SelectionChanged(candidate) => (
            select_state(s, candidate),
            Ok(select_redraw(s, candidate)),
            Effect::NoEffect,
        ),
    }
}

/// Law: `select` is idempotent. Selecting the same candidate again leaves
/// the state exactly as after the first call, and the second call reports
/// that no redraw is needed.
pub proof fn lemma_select_idempotent(s: AddUserToGroupComponent, candidate: Option<i64>)
    ensures
        ({
            let s1 = select_state(s, candidate);
            select_state(s1, candidate) == s1 && !select_redraw(s1, candidate)
        }),
{
}

/// How `update` reports a step to the presentation layer: a failure
/// becomes the error-callback effect with a redraw, a success passes the
/// redraw report and the effect through.
pub open spec fn reported(result: Result<bool, String>, effect: Effect) -> (bool, Effect) {
    match result {
        Ok(redraw) => (redraw, effect),
        Err(e) => (true, Effect::ReportError(e)),
    }
}

} // verus!
