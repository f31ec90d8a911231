//! The `list` command: the names of the groups, in alphabetical order.

use vstd::prelude::*;
use vstd::relations::sorted_by;
use vstd::seq_lib::{lemma_sorted_unique, to_multiset_len};
use crate::registry::{get_cosmetic_roles, lemma_groups_whatever_the_order, spec_cosmetic_roles};
use crate::reply::{listing, no_groups_message, spec_listing, spec_no_groups_message};
use crate::role::{role_names, role_views, Context, GuildView, Role, RoleView};
use crate::text::{
    lemma_name_le_total, lemma_name_le_transitive, lemma_name_order_is_total, name_le, name_order,
    name_views, spec_name_le,
};

verus! {

/// `sorted` with `name` set behind the last name that comes no later than it.
pub open spec fn spec_insert_name(sorted: Seq<Seq<char>>, name: Seq<char>) -> Seq<Seq<char>>
    decreases sorted.len(),
{
    if sorted.len() == 0 {
        seq![name]
    } else if spec_name_le(sorted.last(), name) {
        sorted.push(name)
    } else {
        spec_insert_name(sorted.drop_last(), name).push(sorted.last())
    }
}

/// The names in alphabetical order: each set into its place among those
/// before it.
pub open spec fn spec_sort_names(names: Seq<Seq<char>>) -> Seq<Seq<char>>
    decreases names.len(),
{
    if names.len() == 0 {
        Seq::empty()
    } else {
        spec_insert_name(spec_sort_names(names.drop_last()), names.last())
    }
}

/// What `list` says: the names of the guild's groups in alphabetical order,
/// or that there are none.
pub open spec fn spec_list(ctx: Option<GuildView>) -> Seq<char> {
    let groups = spec_cosmetic_roles(ctx);
    if groups.len() == 0 {
        spec_no_groups_message()
    } else {
        spec_listing(spec_sort_names(role_names(groups)))
    }
}

/// Puts the names in alphabetical order: what comes back are the names
/// given, each as often as it was given, and none of them comes later in
/// the alphabet than one behind it.
pub fn sort_names(names: &Vec<String>) -> (sorted: Vec<String>)
    ensures
        name_views(sorted@) == spec_sort_names(name_views(names@)),
        sorted_by(name_views(sorted@), name_order()),
        name_views(sorted@).to_multiset() == name_views(names@).to_multiset(),
{
    let mut sorted: Vec<String> = Vec::new();
    let mut i: usize = 0;
    while i < names.len()
        invariant
            i <= names.len(),
            name_views(sorted@) == spec_sort_names(name_views(names@).take(i as int)),
        decreases names.len() - i,
    {
        let name = names[i].clone();
        let ghost placed = name_views(sorted@);
        let mut at: usize = sorted.len();
        assert(placed.take(at as int) =~= placed);
        while at > 0 && !name_le(sorted[at - 1].as_str(), name.as_str())
            invariant
                at <= sorted.len(),
                placed == name_views(sorted@),
                spec_insert_name(placed, name@) == spec_insert_name(
                    placed.take(at as int),
                    name@,
                ) + placed.skip(at as int),
            decreases at,
        {
            proof {
                let head = placed.take(at as int);
                assert(head.drop_last() =~= placed.take(at - 1));
            }
            at -= 1;
        }
        proof {
            let head = placed.take(at as int);
            assert(spec_insert_name(head, name@) =~= head.push(name@));
            assert(head.push(name@) + placed.skip(at as int) =~= placed.insert(at as int, name@));
            let shown = name_views(names@).take(i + 1);
            assert(shown.drop_last() =~= name_views(names@).take(i as int));
        }
        sorted.insert(at, name);
        i += 1;
    }
    assert(name_views(names@).take(i as int) =~= name_views(names@));
    proof {
        lemma_sort_names(name_views(names@));
    }
    sorted
}

/// The names of the roles, in the same order.
fn names_of(roles: &Vec<Role>) -> (names: Vec<String>)
    ensures
        name_views(names@) == role_names(role_views(roles@)),
{
    let mut names: Vec<String> = Vec::new();
    let mut i: usize = 0;
    while i < roles.len()
        invariant
            i <= roles.len(),
            names@.len() == i,
            forall|k: int| 0 <= k < i ==> names@[k]@ == roles@[k]@.name,
        decreases roles.len() - i,
    {
        names.push(roles[i].name.clone());
        i += 1;
    }
    names
}

/// Answers the `list` command: the names of the guild's groups in
/// alphabetical order, each between backticks, or the fixed message that
/// there are none. Nothing in the guild is changed.
pub fn list(ctx: &Context) -> (message: String)
    ensures
        message@ == spec_list(ctx@),
{
    let groups = get_cosmetic_roles(ctx);
    if groups.len() == 0 {
        no_groups_message()
    } else {
        let names = names_of(&groups);
        let sorted = sort_names(&names);
        listing(&sorted)
    }
}

/// Setting a name into its place keeps every name, and adds the one.
pub proof fn lemma_insert_name_permutes(sorted: Seq<Seq<char>>, name: Seq<char>)
    ensures
        spec_insert_name(sorted, name).to_multiset() == sorted.to_multiset().insert(name),
        spec_insert_name(sorted, name).len() == sorted.len() + 1,
    decreases sorted.len(),
{
    broadcast use vstd::seq_lib::group_to_multiset_ensures;

    if sorted.len() > 0 && !spec_name_le(sorted.last(), name) {
        let front = sorted.drop_last();
        lemma_insert_name_permutes(front, name);
        assert(sorted =~= front.push(sorted.last()));
    }
}

/// Every name of `spec_insert_name(sorted, name)` comes no later than
/// `bound`, if `name` and every name of `sorted` do.
proof fn lemma_insert_name_bounded(
    sorted: Seq<Seq<char>>,
    name: Seq<char>,
    bound: Seq<char>,
    i: int,
)
    requires
        spec_name_le(name, bound),
        forall|k: int| 0 <= k < sorted.len() ==> spec_name_le(sorted[k], bound),
        0 <= i < spec_insert_name(sorted, name).len(),
    ensures
        spec_name_le(spec_insert_name(sorted, name)[i], bound),
    decreases sorted.len(),
{
    if sorted.len() > 0 && !spec_name_le(sorted.last(), name) {
        let front = sorted.drop_last();
        if i < spec_insert_name(front, name).len() {
            lemma_insert_name_bounded(front, name, bound, i);
        }
    }
}

/// Setting a name into its place keeps the names in order.
pub proof fn lemma_insert_name_sorted(sorted: Seq<Seq<char>>, name: Seq<char>)
    requires
        sorted_by(sorted, name_order()),
    ensures
        sorted_by(spec_insert_name(sorted, name), name_order()),
    decreases sorted.len(),
{
    let order = name_order();
    let out = spec_insert_name(sorted, name);
    if sorted.len() == 0 {
        assert(out.len() == 1);
    } else if spec_name_le(sorted.last(), name) {
        assert forall|i: int, j: int| 0 <= i < j < out.len() implies #[trigger] order(
            out[i],
            out[j],
        ) by {
            if j == sorted.len() && i < sorted.len() - 1 {
                assert(order(sorted[i], sorted[sorted.len() - 1]));
                lemma_name_le_transitive(sorted[i], sorted.last(), name);
            }
        }
    } else {
        let front = sorted.drop_last();
        let placed = spec_insert_name(front, name);
        lemma_insert_name_sorted(front, name);
        lemma_insert_name_permutes(front, name);
        lemma_name_le_total(sorted.last(), name);
        assert forall|i: int, j: int| 0 <= i < j < out.len() implies #[trigger] order(
            out[i],
            out[j],
        ) by {
            if j == placed.len() {
                assert forall|k: int| 0 <= k < front.len() implies spec_name_le(
                    front[k],
                    sorted.last(),
                ) by {
                    assert(order(sorted[k], sorted[sorted.len() - 1]));
                }
                lemma_insert_name_bounded(front, name, sorted.last(), i);
            }
        }
    }
}

/// The sorted names are in alphabetical order, and they are the names that
/// were given: none lost, none added, each as often as it was there.
pub proof fn lemma_sort_names(names: Seq<Seq<char>>)
    ensures
        sorted_by(spec_sort_names(names), name_order()),
        spec_sort_names(names).to_multiset() == names.to_multiset(),
        spec_sort_names(names).len() == names.len(),
    decreases names.len(),
{
    broadcast use vstd::seq_lib::group_to_multiset_ensures;

    if names.len() > 0 {
        let front = names.drop_last();
        lemma_sort_names(front);
        lemma_insert_name_sorted(spec_sort_names(front), names.last());
        lemma_insert_name_permutes(spec_sort_names(front), names.last());
        assert(names =~= front.push(names.last()));
    }
}

/// There is one way only to put names in alphabetical order: names that
/// are in order, and are the names that were given, are the sorted names.
pub proof fn lemma_sort_names_unique(names: Seq<Seq<char>>, arranged: Seq<Seq<char>>)
    requires
        sorted_by(arranged, name_order()),
        arranged.to_multiset() == names.to_multiset(),
    ensures
        arranged == spec_sort_names(names),
{
    lemma_sort_names(names);
    lemma_name_order_is_total();
    lemma_sorted_unique(arranged, spec_sort_names(names), name_order());
}

/// The names of roles that are the same but for their order are the same
/// but for their order.
proof fn lemma_role_names_permute(a: Seq<RoleView>, b: Seq<RoleView>)
    requires
        a.to_multiset() == b.to_multiset(),
    ensures
        role_names(a).to_multiset() == role_names(b).to_multiset(),
    decreases a.len(),
{
    broadcast use vstd::seq_lib::group_to_multiset_ensures;

    if a.len() == 0 {
        to_multiset_len(a);
        to_multiset_len(b);
    } else {
        let role = a.last();
        assert(b.to_multiset().count(role) > 0);
        let k = choose|k: int| 0 <= k < b.len() && b[k] == role;
        let a_rest = a.drop_last();
        let b_rest = b.remove(k);
        assert(a.remove(a.len() - 1) =~= a_rest);
        lemma_role_names_permute(a_rest, b_rest);
        assert(role_names(a) =~= role_names(a_rest).push(role.name));
        assert(role_names(b) =~= role_names(b_rest).insert(k, role.name));
    }
}

/// What `list` says does not depend on the order in which the guild holds
/// its roles.
pub proof fn lemma_list_whatever_the_order(a: GuildView, b: GuildView)
    requires
        a.roles.to_multiset() == b.roles.to_multiset(),
    ensures
        spec_list(Some(a)) == spec_list(Some(b)),
{
    lemma_groups_whatever_the_order(a, b);
    to_multiset_len(spec_cosmetic_roles(Some(a)));
    to_multiset_len(spec_cosmetic_roles(Some(b)));
    let names_a = role_names(spec_cosmetic_roles(Some(a)));
    let names_b = role_names(spec_cosmetic_roles(Some(b)));
    lemma_role_names_permute(spec_cosmetic_roles(Some(a)), spec_cosmetic_roles(Some(b)));
    lemma_sort_names(names_a);
    lemma_sort_names_unique(names_b, spec_sort_names(names_a));
}

} // verus!
