//! Groups, the selectable-list derivation, and lookup by id.
//!
//! A group is identified by an integer id, unique within a catalog, plus a
//! human-readable display name. The selectable list is the catalog minus
//! the groups the user already belongs to, in catalog order.

use vstd::prelude::*;

verus! {

/// An administrative group: an integer identity and a display name.
/// Groups are compared by identity for set membership.
#[derive(Debug)]
pub struct Group {
    pub id: i64,
    pub display_name: String,
}

impl Clone for Group {
    fn clone(&self) -> (res: Self)
        ensures
            res == *self,
    {
        Group { id: self.id, display_name: self.display_name.clone() }
    }
}

impl PartialEq for Group {
    fn eq(&self, other: &Self) -> (res: bool) {
        self.id == other.id && self.display_name == other.display_name
    }
}

impl vstd::std_specs::cmp::PartialEqSpecImpl for Group {
    open spec fn obeys_eq_spec() -> bool {
        true
    }

    open spec fn eq_spec(&self, other: &Self) -> bool {
        self.id == other.id && self.display_name@ == other.display_name@
    }
}

/// Whether some group in `groups` has the identity `id`.
pub open spec fn contains_id(groups: Seq<Group>, id: int) -> bool {
    exists|i: int| 0 <= i < groups.len() && groups[i].id == id
}

/// Whether the ids in `groups` are pairwise distinct.
pub open spec fn distinct_ids(groups: Seq<Group>) -> bool {
    forall|i: int, j: int| 0 <= i < j < groups.len() ==> groups[i].id != groups[j].id
}

/// Whether `g`'s identity appears among the assigned groups.
pub open spec fn is_assigned(assigned: Seq<Group>, g: Group) -> bool {
    contains_id(assigned, g.id as int)
}

/// The selectable list: the catalog minus every group whose identity is
/// assigned, in catalog order.
pub open spec fn selectable(catalog: Seq<Group>, assigned: Seq<Group>) -> Seq<Group>
    decreases catalog.len(),
{
    if catalog.len() == 0 {
        Seq::empty()
    } else if is_assigned(assigned, catalog[0]) {
        selectable(catalog.skip(1), assigned)
    } else {
        seq![catalog[0]] + selectable(catalog.skip(1), assigned)
    }
}

/// How many catalog entries have an assigned identity.
pub open spec fn assigned_count(catalog: Seq<Group>, assigned: Seq<Group>) -> nat
    decreases catalog.len(),
{
    if catalog.len() == 0 {
        0
    } else if is_assigned(assigned, catalog[0]) {
        assigned_count(catalog.skip(1), assigned) + 1
    } else {
        assigned_count(catalog.skip(1), assigned)
    }
}

/// The first group in `groups` with identity `id`, if any.
pub open spec fn find_by_id(groups: Seq<Group>, id: int) -> Option<Group>
    decreases groups.len(),
{
    if groups.len() == 0 {
        None
    } else if groups[0].id == id {
        Some(groups[0])
    } else {
        find_by_id(groups.skip(1), id)
    }
}

/// Whether `s` appears within `t` in order (not necessarily contiguously).
pub open spec fn is_subsequence_of(s: Seq<Group>, t: Seq<Group>) -> bool
    decreases s.len() + t.len(),
{
    if s.len() == 0 {
        true
    } else if t.len() == 0 {
        false
    } else {
        ||| (s[0] == t[0] && is_subsequence_of(s.skip(1), t.skip(1)))
        ||| is_subsequence_of(s, t.skip(1))
    }
}

/// Law: the selectable list contains no group whose identity is assigned,
/// appears within the catalog in order (relative order is preserved), and
/// its length is the catalog's length minus the number of catalog entries
/// whose identity is assigned.
pub proof fn lemma_selectable_properties(catalog: Seq<Group>, assigned: Seq<Group>)
    ensures
        forall|i: int| 0 <= i < selectable(catalog, assigned).len() ==> !is_assigned(
            assigned,
            #[trigger] selectable(catalog, assigned)[i],
        ),
        is_subsequence_of(selectable(catalog, assigned), catalog),
        selectable(catalog, assigned).len() + assigned_count(catalog, assigned) == catalog.len(),
    decreases catalog.len(),
{
    if catalog.len() == 0 {
    } else {
        let rest = catalog.skip(1);
        lemma_selectable_properties(rest, assigned);
        let s = selectable(catalog, assigned);
        let sr = selectable(rest, assigned);
        if is_assigned(assigned, catalog[0]) {
            assert(s == sr);
            if sr.len() != 0 {
                assert(is_subsequence_of(s, catalog));
            }
        } else {
            assert(s == seq![catalog[0]] + sr);
            assert(s[0] == catalog[0]);
            assert(s.skip(1) =~= sr);
            assert(is_subsequence_of(s, catalog));
            assert forall|i: int| 0 <= i < s.len() implies !is_assigned(assigned, s[i]) by {
                if i > 0 {
                    assert(s[i] == sr[i - 1]);
                }
            }
        }
    }
}

/// A non-empty sequence contains `g` exactly when `g` is its head or its
/// tail contains it.
proof fn lemma_contains_shift(s: Seq<Group>, g: Group)
    requires
        s.len() > 0,
    ensures
        s.contains(g) <==> (s[0] == g || s.skip(1).contains(g)),
{
    if s.contains(g) {
        let i = choose|i: int| 0 <= i < s.len() && s[i] == g;
        if i > 0 {
            assert(s.skip(1)[i - 1] == g);
        }
    }
    if s.skip(1).contains(g) {
        let i = choose|i: int| 0 <= i < s.skip(1).len() && s.skip(1)[i] == g;
        assert(s[i + 1] == g);
    }
}

/// Law: a group is in the selectable list exactly when it is in the
/// catalog and its identity is not assigned.
pub proof fn lemma_selectable_membership(catalog: Seq<Group>, assigned: Seq<Group>, g: Group)
    ensures
        selectable(catalog, assigned).contains(g) <==> (catalog.contains(g) && !is_assigned(
            assigned,
            g,
        )),
    decreases catalog.len(),
{
    if catalog.len() == 0 {
    } else {
        let rest = catalog.skip(1);
        lemma_selectable_membership(rest, assigned, g);
        lemma_contains_shift(catalog, g);
        let s = selectable(catalog, assigned);
        if !is_assigned(assigned, catalog[0]) {
            assert(s == seq![catalog[0]] + selectable(rest, assigned));
            assert(s[0] == catalog[0]);
            assert(s.skip(1) =~= selectable(rest, assigned));
            lemma_contains_shift(s, g);
        }
    }
}

/// Whether two groups agree in identity and display name.
pub open spec fn group_alike(a: Group, b: Group) -> bool {
    a.id == b.id && a.display_name@ == b.display_name@
}

/// Whether two group lists agree element by element, comparing identity
/// and display name.
pub open spec fn groups_alike(a: Seq<Group>, b: Seq<Group>) -> bool {
    &&& a.len() == b.len()
    &&& forall|i: int| 0 <= i < a.len() ==> group_alike(#[trigger] a[i], b[i])
}

/// Whether two group lists agree element by element.
pub fn groups_equal(a: &Vec<Group>, b: &Vec<Group>) -> (r: bool)
    ensures
        r == groups_alike(a@, b@),
{
    if a.len() != b.len() {
        return false;
    }
    let mut i: usize = 0;
    while i < a.len()
        invariant
            0 <= i <= a@.len(),
            a@.len() == b@.len(),
            forall|k: int| 0 <= k < i ==> group_alike(#[trigger] a@[k], b@[k]),
        decreases a@.len() - i,
    {
        if !(a[i] == b[i]) {
            return false;
        }
        i = i + 1;
    }
    true
}

/// Looking a group up by id succeeds exactly when the id occurs, and what
/// it finds is a member of the list and carries that id.
pub proof fn lemma_find_by_id(groups: Seq<Group>, id: int)
    ensures
        (find_by_id(groups, id) is Some) <==> contains_id(groups, id),
        find_by_id(groups, id) matches Some(g) ==> groups.contains(g) && g.id == id,
    decreases groups.len(),
{
    if groups.len() == 0 {
    } else if groups[0].id == id {
        assert(groups.contains(groups[0]));
    } else {
        let rest = groups.skip(1);
        lemma_find_by_id(rest, id);
        if contains_id(groups, id) {
            let i = choose|i: int| 0 <= i < groups.len() && groups[i].id == id;
            assert(rest[i - 1] == groups[i]);
            assert(contains_id(rest, id));
        }
        if contains_id(rest, id) {
            let i = choose|i: int| 0 <= i < rest.len() && rest[i].id == id;
            assert(groups[i + 1] == rest[i]);
            assert(contains_id(groups, id));
        }
        if find_by_id(groups, id) is Some {
            let g = find_by_id(groups, id)->Some_0;
            assert(rest.contains(g));
            let j = choose|j: int| 0 <= j < rest.len() && rest[j] == g;
            assert(groups[j + 1] == g);
            assert(groups.contains(g));
        }
    }
}

/// Whether some group in `groups` has the identity `id`.
pub fn contains_group_id(groups: &Vec<Group>, id: i64) -> (r: bool)
    ensures
        r == contains_id(groups@, id as int),
{
    let mut i: usize = 0;
    while i < groups.len()
        invariant
            0 <= i <= groups@.len(),
            forall|k: int| 0 <= k < i ==> groups@[k].id != id,
        decreases groups@.len() - i,
    {
        if groups[i].id == id {
            proof {
                assert(groups@[i as int].id == id);
            }
            return true;
        }
        i = i + 1;
    }
    false
}

/// The first group in `groups` with identity `id`, cloned out, if any.
pub fn find_group_by_id(groups: &Vec<Group>, id: i64) -> (r: Option<Group>)
    ensures
        r == find_by_id(groups@, id as int),
{
    proof {
        assert(groups@.skip(0) =~= groups@);
    }
    let mut i: usize = 0;
    while i < groups.len()
        invariant
            0 <= i <= groups@.len(),
            find_by_id(groups@, id as int) == find_by_id(groups@.skip(i as int), id as int),
        decreases groups@.len() - i,
    {
        proof {
            assert(groups@.skip(i as int)[0] == groups@[i as int]);
            assert(groups@.skip(i as int).skip(1) =~= groups@.skip(i as int + 1));
        }
        if groups[i].id == id {
            return Some(groups[i].clone());
        }
        i = i + 1;
    }
    proof {
        assert(groups@.skip(i as int) =~= Seq::<Group>::empty());
    }
    None
}

/// The catalog minus every group whose identity is assigned, in catalog
/// order: what the operator may choose from.
pub fn derive_selectable_list(catalog: &Vec<Group>, assigned: &Vec<Group>) -> (r: Vec<Group>)
    ensures
        r@ == selectable(catalog@, assigned@),
{
    proof {
        assert(catalog@.skip(0) =~= catalog@);
    }
    let mut out: Vec<Group> = Vec::new();
    let mut i: usize = 0;
    while i < catalog.len()
        invariant
            0 <= i <= catalog@.len(),
            selectable(catalog@, assigned@) == out@ + selectable(
                catalog@.skip(i as int),
                assigned@,
            ),
        decreases catalog@.len() - i,
    {
        proof {
            assert(catalog@.skip(i as int)[0] == catalog@[i as int]);
            assert(catalog@.skip(i as int).skip(1) =~= catalog@.skip(i as int + 1));
        }
        let g = &catalog[i];
        let ghost old_out = out@;
        if !contains_group_id(assigned, g.id) {
            out.push(g.clone());
            proof {
                assert(out@ + selectable(catalog@.skip(i as int + 1), assigned@) =~= old_out
                    + selectable(catalog@.skip(i as int), assigned@));
            }
        }
        i = i + 1;
    }
    proof {
        assert(selectable(catalog@.skip(i as int), assigned@) =~= Seq::<Group>::empty());
        assert(out@ + selectable(catalog@.skip(i as int), assigned@) =~= out@);
    }
    out
}

} // verus!
