//! The groups of a guild, read afresh from its roles on every query.

use vstd::prelude::*;
use crate::role::{is_group, role_views, spec_is_group, Context, GuildView, Role, RoleView};

verus! {

/// The test that [`spec_cosmetic_roles`] filters by.
pub open spec fn group_pred() -> spec_fn(RoleView) -> bool {
    |role: RoleView| spec_is_group(role)
}

/// The groups of the guild: its roles without any permission, in the order
/// in which the guild holds them. Outside a guild there are none.
pub open spec fn spec_cosmetic_roles(ctx: Option<GuildView>) -> Seq<RoleView> {
    match ctx {
        Some(guild) => guild.roles.filter(group_pred()),
        None => Seq::empty(),
    }
}

/// The first of `roles` that goes by `name`, letter for letter.
pub open spec fn first_named(roles: Seq<RoleView>, name: Seq<char>) -> Option<RoleView>
    decreases roles.len(),
{
    if roles.len() == 0 {
        None
    } else if roles[0].name == name {
        Some(roles[0])
    } else {
        first_named(roles.drop_first(), name)
    }
}

/// The group that goes by `name`, if the guild has one.
pub open spec fn spec_find_group(ctx: Option<GuildView>, name: Seq<char>) -> Option<RoleView> {
    first_named(spec_cosmetic_roles(ctx), name)
}

/// Collects the groups of the guild that `ctx` was invoked in: every role
/// of the guild that carries no permission, and no role that carries one,
/// in the order in which the guild holds them. A command invoked outside a
/// guild finds none, which is no error.
pub fn get_cosmetic_roles(ctx: &Context) -> (groups: Vec<Role>)
    ensures
        role_views(groups@) == spec_cosmetic_roles(ctx@),
        forall|role: RoleView|
            #[trigger] role_views(groups@).contains(role) <==> (ctx@ matches Some(guild)
                && guild.roles.contains(role) && role.permissions == 0),
{
    let mut groups: Vec<Role> = Vec::new();
    match &ctx.guild {
        None => {},
        Some(guild) => {
            let mut i: usize = 0;
            while i < guild.roles.len()
                invariant
                    i <= guild.roles.len(),
                    role_views(groups@) == role_views(guild.roles@.take(i as int)).filter(
                        group_pred(),
                    ),
                decreases guild.roles.len() - i,
            {
                let role = &guild.roles[i];
                proof {
                    let seen = role_views(guild.roles@.take(i as int));
                    assert(role_views(guild.roles@.take(i + 1)) =~= seen.push(role@));
                    seen.lemma_filter_push(role@, group_pred());
                }
                if is_group(role) {
                    groups.push(role.clone());
                }
                i += 1;
            }
            assert(guild.roles@.take(i as int) =~= guild.roles@);
        },
    }
    proof {
        assert forall|role: RoleView|
            #[trigger] role_views(groups@).contains(role) <==> (ctx@ matches Some(guild)
                && guild.roles.contains(role) && role.permissions == 0) by {
            lemma_groups_are_the_roles_without_permissions(ctx@, role);
        }
    }
    groups
}

/// Looks a group up by its exact name. A name that no group goes by gives
/// `None`, which is no error; of several groups with one name the first is
/// found.
pub fn find_group(ctx: &Context, name: &str) -> (found: Option<Role>)
    ensures
        match found {
            Some(role) => spec_find_group(ctx@, name@) == Some(role@),
            None => spec_find_group(ctx@, name@) is None,
        },
        found is None <==> forall|role: RoleView|
            spec_cosmetic_roles(ctx@).contains(role) ==> role.name != name@,
        found matches Some(role) ==> spec_cosmetic_roles(ctx@).contains(role@) && role@.name
            == name@,
{
    let groups = get_cosmetic_roles(ctx);
    let wanted = name.to_owned();
    let mut i: usize = 0;
    assert(role_views(groups@).skip(0) =~= role_views(groups@));
    while i < groups.len()
        invariant
            i <= groups.len(),
            wanted@ == name@,
            role_views(groups@) == spec_cosmetic_roles(ctx@),
            spec_find_group(ctx@, name@) == first_named(
                role_views(groups@).skip(i as int),
                name@,
            ),
        decreases groups.len() - i,
    {
        let ghost rest = role_views(groups@).skip(i as int);
        if groups[i].name == wanted {
            proof {
                lemma_find_group(ctx@, name@);
            }
            return Some(groups[i].clone());
        }
        assert(rest.drop_first() =~= role_views(groups@).skip(i + 1));
        i += 1;
    }
    proof {
        lemma_find_group(ctx@, name@);
    }
    None
}

/// The groups are the roles of the guild that carry no permission, all of
/// them and no other, whatever their order in the guild.
pub proof fn lemma_groups_are_the_roles_without_permissions(
    ctx: Option<GuildView>,
    role: RoleView,
)
    ensures
        spec_cosmetic_roles(ctx).contains(role) <==> (ctx matches Some(guild)
            && guild.roles.contains(role) && role.permissions == 0),
{
    match ctx {
        None => {},
        Some(guild) => {
            let roles = guild.roles;
            let groups = roles.filter(group_pred());
            if groups.contains(role) {
                roles.lemma_filter_contains_rev(group_pred(), role);
                let i = choose|i: int| 0 <= i < groups.len() && groups[i] == role;
                roles.lemma_filter_pred(group_pred(), i);
            }
            if roles.contains(role) && role.permissions == 0 {
                let i = choose|i: int| 0 <= i < roles.len() && roles[i] == role;
                roles.lemma_filter_contains(group_pred(), i);
            }
        },
    }
}

/// How often a role stands among the groups: as often as among the roles,
/// if it carries no permission, and else not at all.
proof fn lemma_group_count(roles: Seq<RoleView>, role: RoleView)
    ensures
        roles.filter(group_pred()).to_multiset().count(role) == if spec_is_group(role) {
            roles.to_multiset().count(role)
        } else {
            0
        },
    decreases roles.len(),
{
    broadcast use vstd::seq_lib::group_to_multiset_ensures;

    if roles.len() == 0 {
        assert(roles.filter(group_pred()) =~= Seq::<RoleView>::empty()) by {
            roles.lemma_filter_len(group_pred());
        }
    } else {
        let front = roles.drop_last();
        lemma_group_count(front, role);
        assert(roles =~= front.push(roles.last()));
        front.lemma_filter_push(roles.last(), group_pred());
    }
}

/// Two guilds that hold the same roles have the same groups, in whatever
/// order each of them holds its roles.
pub proof fn lemma_groups_whatever_the_order(a: GuildView, b: GuildView)
    requires
        a.roles.to_multiset() == b.roles.to_multiset(),
    ensures
        spec_cosmetic_roles(Some(a)).to_multiset() == spec_cosmetic_roles(Some(b)).to_multiset(),
{
    assert forall|role: RoleView|
        spec_cosmetic_roles(Some(a)).to_multiset().count(role) == spec_cosmetic_roles(
            Some(b),
        ).to_multiset().count(role) by {
        lemma_group_count(a.roles, role);
        lemma_group_count(b.roles, role);
    }
}

/// What comes of looking for the first of `roles` named `name`: none, if
/// no role goes by that name; else a role of that name, before which no
/// other of that name stands.
pub proof fn lemma_first_named(roles: Seq<RoleView>, name: Seq<char>)
    ensures
        match first_named(roles, name) {
            Some(found) => exists|i: int|
                0 <= i < roles.len() && roles[i] == found && found.name == name && forall|j: int|
                    0 <= j < i ==> roles[j].name != name,
            None => forall|i: int| 0 <= i < roles.len() ==> roles[i].name != name,
        },
    decreases roles.len(),
{
    if roles.len() > 0 && roles[0].name != name {
        let rest = roles.drop_first();
        lemma_first_named(rest, name);
        match first_named(rest, name) {
            Some(found) => {
                let i = choose|i: int|
                    0 <= i < rest.len() && rest[i] == found && found.name == name && forall|j: int|
                        0 <= j < i ==> rest[j].name != name;
                assert forall|j: int| 0 <= j < i + 1 implies roles[j].name != name by {
                    if j > 0 {
                        assert(roles[j] == rest[j - 1]);
                    }
                }
                assert(roles[i + 1] == found);
            },
            None => {
                assert forall|i: int| 0 <= i < roles.len() implies roles[i].name != name by {
                    if i > 0 {
                        assert(roles[i] == rest[i - 1]);
                    }
                }
            },
        }
    }
}

/// Looking a group up gives none exactly if no group goes by the name,
/// and else a group that goes by it.
pub proof fn lemma_find_group(ctx: Option<GuildView>, name: Seq<char>)
    ensures
        spec_find_group(ctx, name) is None <==> forall|role: RoleView|
            spec_cosmetic_roles(ctx).contains(role) ==> role.name != name,
        spec_find_group(ctx, name) matches Some(found) ==> spec_cosmetic_roles(ctx).contains(found)
            && found.name == name,
{
    let groups = spec_cosmetic_roles(ctx);
    lemma_first_named(groups, name);
    match first_named(groups, name) {
        Some(found) => {
            assert(groups.contains(found));
        },
        None => {
            assert forall|role: RoleView| groups.contains(role) implies role.name != name by {
                let i = choose|i: int| 0 <= i < groups.len() && groups[i] == role;
            }
        },
    }
}

/// Where no two groups share a name, looking a name up gives the one group
/// that goes by it.
pub proof fn lemma_find_group_unique(ctx: Option<GuildView>, name: Seq<char>, role: RoleView)
    requires
        forall|i: int, j: int|
            0 <= i < j < spec_cosmetic_roles(ctx).len() ==> spec_cosmetic_roles(ctx)[i].name
                != spec_cosmetic_roles(ctx)[j].name,
        spec_cosmetic_roles(ctx).contains(role),
        role.name == name,
    ensures
        spec_find_group(ctx, name) == Some(role),
{
    let groups = spec_cosmetic_roles(ctx);
    lemma_first_named(groups, name);
    let k = choose|k: int| 0 <= k < groups.len() && groups[k] == role;
    if let Some(found) = first_named(groups, name) {
        let i = choose|i: int|
            0 <= i < groups.len() && groups[i] == found && found.name == name && forall|j: int|
                0 <= j < i ==> groups[j].name != name;
        assert(i == k);
    }
}

} // verus!
