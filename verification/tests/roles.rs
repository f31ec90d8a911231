use role_groups::registry::{find_group, get_cosmetic_roles};
use role_groups::role::{is_group, Context, Guild, Member, Role};
use role_groups::protocol::Action;
use role_groups::{groups, Data};

const MANAGE_GUILD: u64 = 1 << 5;

fn role(id: u64, name: &str, permissions: u64) -> Role {
    Role { id, name: name.to_string(), permissions }
}

fn guild_of(roles: Vec<Role>) -> Context {
    Context { guild: Some(Guild { id: 77, roles }) }
}

#[test]
fn a_role_without_permissions_is_a_group() {
    assert!(is_group(&role(1, "Red", 0)));
    assert!(is_group(&role(2, "", 0)));
}

#[test]
fn a_role_with_any_permission_is_no_group() {
    assert!(!is_group(&role(1, "Admin", MANAGE_GUILD)));
    assert!(!is_group(&role(2, "Low", 1)));
    assert!(!is_group(&role(3, "High", 1 << 63)));
    assert!(!is_group(&role(4, "All", u64::MAX)));
}

#[test]
fn groups_keep_the_order_of_the_guild() {
    let ctx = guild_of(vec![
        role(1, "Admin", MANAGE_GUILD),
        role(2, "Red", 0),
        role(3, "Mods", 8),
        role(4, "Blue", 0),
    ]);
    assert_eq!(get_cosmetic_roles(&ctx), vec![role(2, "Red", 0), role(4, "Blue", 0)]);
}

#[test]
fn groups_are_the_same_in_any_order_of_the_guild() {
    let one = guild_of(vec![role(1, "Admin", 32), role(2, "Red", 0), role(3, "Blue", 0)]);
    let other = guild_of(vec![role(3, "Blue", 0), role(1, "Admin", 32), role(2, "Red", 0)]);
    let mut from_one = get_cosmetic_roles(&one);
    let mut from_other = get_cosmetic_roles(&other);
    from_one.sort_by_key(|role| role.id);
    from_other.sort_by_key(|role| role.id);
    assert_eq!(from_one, from_other);
    assert_eq!(from_one, vec![role(2, "Red", 0), role(3, "Blue", 0)]);
}

#[test]
fn a_guild_of_roles_with_permissions_has_no_groups() {
    let ctx = guild_of(vec![role(1, "Admin", 32), role(2, "Mods", 8)]);
    assert_eq!(get_cosmetic_roles(&ctx), Vec::<Role>::new());
}

#[test]
fn an_empty_guild_has_no_groups() {
    assert_eq!(get_cosmetic_roles(&guild_of(vec![])), Vec::<Role>::new());
}

#[test]
fn outside_a_guild_there_are_no_groups() {
    let ctx = Context { guild: None };
    assert_eq!(get_cosmetic_roles(&ctx), Vec::<Role>::new());
    assert_eq!(find_group(&ctx, "Red"), None);
}

#[test]
fn a_group_is_found_by_its_exact_name() {
    let ctx = guild_of(vec![role(1, "Admin", 32), role(2, "Red", 0), role(3, "Blue", 0)]);
    assert_eq!(find_group(&ctx, "Red"), Some(role(2, "Red", 0)));
    assert_eq!(find_group(&ctx, "Blue"), Some(role(3, "Blue", 0)));
}

#[test]
fn a_name_that_no_group_has_finds_nothing() {
    let ctx = guild_of(vec![role(1, "Admin", 32), role(2, "Red", 0), role(3, "Blue", 0)]);
    assert_eq!(find_group(&ctx, "Purple"), None);
    assert_eq!(find_group(&ctx, ""), None);
}

#[test]
fn a_role_with_permissions_is_not_found_as_a_group() {
    let ctx = guild_of(vec![role(1, "Admin", 32), role(2, "Red", 0)]);
    assert_eq!(find_group(&ctx, "Admin"), None);
}

#[test]
fn names_are_matched_letter_for_letter() {
    let ctx = guild_of(vec![role(2, "Red", 0)]);
    assert_eq!(find_group(&ctx, "red"), None);
    assert_eq!(find_group(&ctx, "RED"), None);
    assert_eq!(find_group(&ctx, "Re"), None);
    assert_eq!(find_group(&ctx, "Red "), None);
    assert_eq!(find_group(&ctx, "Red"), Some(role(2, "Red", 0)));
}

#[test]
fn of_two_groups_with_one_name_the_first_is_found() {
    let ctx = guild_of(vec![role(7, "Red", 0), role(2, "Red", 0)]);
    assert_eq!(find_group(&ctx, "Red"), Some(role(7, "Red", 0)));
}

#[test]
fn a_group_behind_a_role_of_its_name_is_still_found() {
    let ctx = guild_of(vec![role(1, "Red", 32), role(2, "Red", 0)]);
    assert_eq!(find_group(&ctx, "Red"), Some(role(2, "Red", 0)));
}

#[test]
fn names_beyond_ascii_are_found() {
    let ctx = guild_of(vec![role(1, "Grün", 0), role(2, "赤", 0)]);
    assert_eq!(find_group(&ctx, "Grün"), Some(role(1, "Grün", 0)));
    assert_eq!(find_group(&ctx, "赤"), Some(role(2, "赤", 0)));
    assert_eq!(find_group(&ctx, "Grun"), None);
}

#[test]
fn a_copy_of_a_role_is_the_role() {
    let red = role(2, "Red", 0);
    assert_eq!(red.clone(), red);
    let member = Member { id: 9, display_name: "M".to_string() };
    assert_eq!(member.clone(), member);
}

#[test]
fn the_parent_command_does_nothing() {
    assert_eq!(groups(&guild_of(vec![role(2, "Red", 0)])), Action::Stop);
    assert_eq!(groups(&Context { guild: None }), Action::Stop);
}

#[test]
fn the_handlers_share_nothing() {
    let _data: Data = Data {};
}
