//! Suggestions for a group name while a member is still typing it.

use vstd::prelude::*;
use crate::registry::{get_cosmetic_roles, spec_cosmetic_roles};
use crate::role::{role_names, role_views, Context, GuildView};
use crate::text::{contains, name_views, occurs_at, spec_contains};

verus! {

/// The test of a name against what was typed so far.
pub open spec fn name_contains(partial: Seq<char>) -> spec_fn(Seq<char>) -> bool {
    |name: Seq<char>| spec_contains(name, partial)
}

/// The names of the groups, less those that do not contain `partial`, in
/// the order in which the guild holds the groups.
pub open spec fn spec_autocomplete_group(
    ctx: Option<GuildView>,
    partial: Seq<char>,
) -> Seq<Seq<char>> {
    role_names(spec_cosmetic_roles(ctx)).filter(name_contains(partial))
}

/// Suggests group names for what a member has typed so far: the name of
/// every group that has `partial` somewhere in it. Nothing is kept between
/// calls; each call reads the guild's roles anew.
pub fn autocomplete_group(ctx: &Context, partial: &str) -> (names: Vec<String>)
    ensures
        name_views(names@) == spec_autocomplete_group(ctx@, partial@),
        partial@.len() == 0 ==> name_views(names@) == role_names(spec_cosmetic_roles(ctx@)),
        forall|name: Seq<char>|
            #[trigger] name_views(names@).contains(name) <==> (spec_contains(name, partial@)
                && role_names(spec_cosmetic_roles(ctx@)).contains(name)),
{
    let groups = get_cosmetic_roles(ctx);
    let mut names: Vec<String> = Vec::new();
    let mut i: usize = 0;
    proof {
        let none = role_names(role_views(groups@).take(0));
        none.lemma_filter_len(name_contains(partial@));
    }
    while i < groups.len()
        invariant
            i <= groups.len(),
            role_views(groups@) == spec_cosmetic_roles(ctx@),
            name_views(names@) == role_names(role_views(groups@).take(i as int)).filter(
                name_contains(partial@),
            ),
        decreases groups.len() - i,
    {
        let role = &groups[i];
        proof {
            let seen = role_names(role_views(groups@).take(i as int));
            assert(role_names(role_views(groups@).take(i + 1)) =~= seen.push(role@.name));
            seen.lemma_filter_push(role@.name, name_contains(partial@));
        }
        if contains(role.name.as_str(), partial) {
            names.push(role.name.clone());
        }
        i += 1;
    }
    assert(role_views(groups@).take(i as int) =~= role_views(groups@));
    proof {
        if partial@.len() == 0 {
            assert(partial@ =~= Seq::<char>::empty());
            lemma_autocomplete_of_nothing(ctx@);
        }
        assert forall|name: Seq<char>|
            #[trigger] name_views(names@).contains(name) <==> (spec_contains(name, partial@)
                && role_names(spec_cosmetic_roles(ctx@)).contains(name)) by {
            lemma_autocomplete_exact(ctx@, partial@, name);
        }
    }
    names
}

/// Every name has the empty sequence in it.
pub proof fn lemma_contains_empty(name: Seq<char>)
    ensures
        spec_contains(name, Seq::empty()),
{
    assert(name.subrange(0, 0) =~= Seq::<char>::empty());
    assert(occurs_at(name, Seq::empty(), 0));
}

/// A test that all of `names` pass keeps them all.
proof fn lemma_filter_keeps_all(names: Seq<Seq<char>>, partial: Seq<char>)
    requires
        forall|i: int| 0 <= i < names.len() ==> spec_contains(names[i], partial),
    ensures
        names.filter(name_contains(partial)) == names,
    decreases names.len(),
{
    if names.len() == 0 {
        names.lemma_filter_len(name_contains(partial));
    } else {
        let front = names.drop_last();
        lemma_filter_keeps_all(front, partial);
        assert(names =~= front.push(names.last()));
        front.lemma_filter_push(names.last(), name_contains(partial));
    }
}

/// With nothing typed yet, every group is suggested.
pub proof fn lemma_autocomplete_of_nothing(ctx: Option<GuildView>)
    ensures
        spec_autocomplete_group(ctx, Seq::empty()) == role_names(spec_cosmetic_roles(ctx)),
{
    let names = role_names(spec_cosmetic_roles(ctx));
    assert forall|i: int| 0 <= i < names.len() implies spec_contains(names[i], Seq::empty()) by {
        lemma_contains_empty(names[i]);
    }
    lemma_filter_keeps_all(names, Seq::empty());
}

/// A name is suggested exactly if a group goes by it and it contains what
/// was typed.
pub proof fn lemma_autocomplete_exact(
    ctx: Option<GuildView>,
    partial: Seq<char>,
    name: Seq<char>,
)
    ensures
        spec_autocomplete_group(ctx, partial).contains(name) <==> (spec_contains(name, partial)
            && role_names(spec_cosmetic_roles(ctx)).contains(name)),
{
    let names = role_names(spec_cosmetic_roles(ctx));
    let suggested = names.filter(name_contains(partial));
    if suggested.contains(name) {
        let i = choose|i: int| 0 <= i < suggested.len() && suggested[i] == name;
        names.lemma_filter_pred(name_contains(partial), i);
        names.lemma_filter_contains_rev(name_contains(partial), name);
    }
    if spec_contains(name, partial) && names.contains(name) {
        let k = choose|k: int| 0 <= k < names.len() && names[k] == name;
        names.lemma_filter_contains(name_contains(partial), k);
    }
}

} // verus!
