use std::collections::BTreeSet;

use role_groups::create::{create, CreateState, Grant};
use role_groups::protocol::{Action, CommandError, Event};
use role_groups::registry::get_cosmetic_roles;
use role_groups::role::{Context, Guild, Member, Role};

fn role(id: u64, name: &str, permissions: u64) -> Role {
    Role { id, name: name.to_string(), permissions }
}

fn member(id: u64, name: &str) -> Member {
    Member { id, display_name: name.to_string() }
}

fn guild() -> Context {
    Context {
        guild: Some(Guild {
            id: 77,
            roles: vec![role(1, "Admin", 1 << 5), role(2, "Red", 0), role(3, "Blue", 0)],
        }),
    }
}

/// A role source kept in memory: the roles it made, who holds which role,
/// and what it was asked to do.
struct Source {
    invoker: Option<Member>,
    created: Vec<Role>,
    holdings: BTreeSet<(u64, u64)>,
    refuses_roles: bool,
    refuses_grants: bool,
    asked: Vec<Action>,
}

impl Source {
    fn with(invoker: Option<Member>) -> Source {
        Source {
            invoker,
            created: Vec::new(),
            holdings: BTreeSet::new(),
            refuses_roles: false,
            refuses_grants: false,
            asked: Vec::new(),
        }
    }

    fn perform(&mut self, action: &Action) -> Event {
        match action {
            Action::ResolveMember => match &self.invoker {
                Some(member) => Event::Resolved { member: member.clone() },
                None => Event::Failed,
            },
            Action::CreateRole { guild_id, name, permissions } => {
                if self.refuses_roles || *guild_id != 77 {
                    return Event::Failed;
                }
                let role_id: u64 = 100 + self.created.len() as u64;
                self.created.push(Role { id: role_id, name: name.clone(), permissions: *permissions });
                Event::Created { role_id }
            },
            Action::AssignRole { member_id, role_id } => {
                if self.refuses_grants {
                    return Event::Failed;
                }
                self.holdings.insert((*member_id, *role_id));
                Event::Applied
            },
            _ => panic!("not asked of the role source: {action:?}"),
        }
    }
}

/// Steps the command until its action is final, and gives that action with
/// the state that the command ended in.
fn drive(source: &mut Source, ctx: &Context, group: &str) -> (CreateState, Action) {
    let mut state = CreateState::Start;
    let mut event = Event::Invoked;
    let mut steps: u32 = 0;
    loop {
        let (next, action) = create(ctx, group, state, event);
        steps += 1;
        assert!(steps <= 4, "a command ends within four steps");
        match action {
            Action::Reply { .. } | Action::Stop | Action::Propagate | Action::Fail { .. } => {
                return (next, action);
            },
            asked => {
                event = source.perform(&asked);
                source.asked.push(asked);
                state = next;
            },
        }
    }
}

fn said(message: &str) -> Action {
    Action::Reply { message: message.to_string() }
}

#[test]
fn creating_makes_the_group_and_gives_it_to_its_creator() {
    let mut source = Source::with(Some(member(9, "Maria")));
    let (state, end) = drive(&mut source, &guild(), "Green");
    assert_eq!(end, said("Maria created the new group Green. Use `/groups join Green` to join."));
    assert_eq!(state, CreateState::Finished { created: Some(100), granted: Grant::Granted });
    assert_eq!(source.created, vec![role(100, "Green", 0)]);
    assert_eq!(source.holdings, BTreeSet::from([(9, 100)]));
    assert_eq!(
        source.asked,
        vec![
            Action::ResolveMember,
            Action::CreateRole { guild_id: 77, name: "Green".to_string(), permissions: 0 },
            Action::AssignRole { member_id: 9, role_id: 100 },
        ],
    );
}

#[test]
fn a_guild_without_groups_has_no_template() {
    let ctx = Context { guild: Some(Guild { id: 77, roles: vec![role(1, "Admin", 1 << 5)] }) };
    let mut source = Source::with(Some(member(9, "Maria")));
    let (state, end) = drive(&mut source, &ctx, "Green");
    assert_eq!(end, Action::Fail { error: CommandError::TemplateMissing });
    assert_eq!(state, CreateState::Finished { created: None, granted: Grant::NotAttempted });
    assert_eq!(source.created, Vec::<Role>::new());
    assert_eq!(source.holdings, BTreeSet::new());
    assert_eq!(source.asked, vec![Action::ResolveMember]);
}

#[test]
fn outside_a_guild_there_is_no_template() {
    let ctx = Context { guild: None };
    let mut source = Source::with(Some(member(9, "Maria")));
    let (state, end) = drive(&mut source, &ctx, "Green");
    assert_eq!(end, Action::Fail { error: CommandError::TemplateMissing });
    assert_eq!(state, CreateState::Finished { created: None, granted: Grant::NotAttempted });
    assert_eq!(source.created, Vec::<Role>::new());
}

#[test]
fn a_creator_that_cannot_be_resolved_fails_the_command() {
    let mut source = Source::with(None);
    let (state, end) = drive(&mut source, &guild(), "Green");
    assert_eq!(end, Action::Fail { error: CommandError::MemberUnresolved });
    assert_eq!(state, CreateState::Finished { created: None, granted: Grant::NotAttempted });
    assert_eq!(source.created, Vec::<Role>::new());
    assert_eq!(source.asked, vec![Action::ResolveMember]);
}

#[test]
fn the_creator_is_looked_for_before_the_template() {
    let ctx = Context { guild: None };
    let mut source = Source::with(None);
    let (_, end) = drive(&mut source, &ctx, "Green");
    assert_eq!(end, Action::Fail { error: CommandError::MemberUnresolved });
}

#[test]
fn a_role_that_is_not_created_fails_the_command() {
    let mut source = Source::with(Some(member(9, "Maria")));
    source.refuses_roles = true;
    let (state, end) = drive(&mut source, &guild(), "Green");
    assert_eq!(end, Action::Fail { error: CommandError::CreateFailed });
    assert_eq!(state, CreateState::Finished { created: None, granted: Grant::NotAttempted });
    assert_eq!(source.holdings, BTreeSet::new());
    assert_eq!(
        source.asked,
        vec![
            Action::ResolveMember,
            Action::CreateRole { guild_id: 77, name: "Green".to_string(), permissions: 0 },
        ],
    );
}

#[test]
fn a_grant_that_is_refused_does_not_undo_the_creation() {
    let mut source = Source::with(Some(member(9, "Maria")));
    source.refuses_grants = true;
    let (state, end) = drive(&mut source, &guild(), "Green");
    assert_eq!(end, said("Maria created the new group Green. Use `/groups join Green` to join."));
    assert_eq!(state, CreateState::Finished { created: Some(100), granted: Grant::Refused });
    assert_eq!(source.created, vec![role(100, "Green", 0)]);
    assert_eq!(source.holdings, BTreeSet::new());
}

#[test]
fn the_new_role_is_a_group() {
    let mut source = Source::with(Some(member(9, "Maria")));
    let _ = drive(&mut source, &guild(), "Green");
    let mut roles = vec![role(1, "Admin", 1 << 5), role(2, "Red", 0), role(3, "Blue", 0)];
    roles.extend(source.created.iter().cloned());
    let after = Context { guild: Some(Guild { id: 77, roles }) };
    assert_eq!(
        get_cosmetic_roles(&after),
        vec![role(2, "Red", 0), role(3, "Blue", 0), role(100, "Green", 0)],
    );
}

#[test]
fn a_name_that_is_taken_may_be_given_again() {
    let mut source = Source::with(Some(member(9, "Maria")));
    let (state, end) = drive(&mut source, &guild(), "Red");
    assert_eq!(end, said("Maria created the new group Red. Use `/groups join Red` to join."));
    assert_eq!(state, CreateState::Finished { created: Some(100), granted: Grant::Granted });
    assert_eq!(source.created, vec![role(100, "Red", 0)]);
}

#[test]
fn create_step_by_step() {
    let ctx = guild();
    let (state, action) = create(&ctx, "Green", CreateState::Start, Event::Invoked);
    assert_eq!(state, CreateState::Resolving);
    assert_eq!(action, Action::ResolveMember);

    let (state, action) = create(&ctx, "Green", state, Event::Resolved { member: member(9, "M") });
    assert_eq!(state, CreateState::Creating { creator: member(9, "M") });
    assert_eq!(action, Action::CreateRole { guild_id: 77, name: "Green".to_string(), permissions: 0 });

    let (state, action) = create(&ctx, "Green", state, Event::Created { role_id: 77 });
    assert_eq!(state, CreateState::Granting { creator: member(9, "M"), role_id: 77 });
    assert_eq!(action, Action::AssignRole { member_id: 9, role_id: 77 });

    let (state, action) = create(&ctx, "Green", state, Event::Applied);
    assert_eq!(state, CreateState::Finished { created: Some(77), granted: Grant::Granted });
    assert_eq!(action, said("M created the new group Green. Use `/groups join Green` to join."));

    let (state, action) = create(&ctx, "Green", state, Event::Applied);
    assert_eq!(state, CreateState::Finished { created: Some(77), granted: Grant::Granted });
    assert_eq!(action, Action::Stop);
}

#[test]
fn create_starts_in_the_same_way_whatever_the_guild() {
    for ctx in [guild(), Context { guild: None }] {
        for event in [Event::Invoked, Event::Failed, Event::Applied] {
            assert_eq!(
                create(&ctx, "Green", CreateState::Start, event),
                (CreateState::Resolving, Action::ResolveMember),
            );
        }
    }
}

#[test]
fn create_takes_anything_but_the_awaited_report_for_failure() {
    let ctx = guild();
    let nothing = CreateState::Finished { created: None, granted: Grant::NotAttempted };
    for event in [Event::Invoked, Event::Applied, Event::Failed, Event::Created { role_id: 5 }] {
        let (state, action) = create(&ctx, "Green", CreateState::Resolving, event);
        assert_eq!(state, nothing);
        assert_eq!(action, Action::Fail { error: CommandError::MemberUnresolved });
    }
    for event in [
        Event::Invoked,
        Event::Applied,
        Event::Failed,
        Event::Resolved { member: member(9, "M") },
    ] {
        let waiting = CreateState::Creating { creator: member(9, "M") };
        let (state, action) = create(&ctx, "Green", waiting, event);
        assert_eq!(state, nothing);
        assert_eq!(action, Action::Fail { error: CommandError::CreateFailed });
    }
    for event in [
        Event::Invoked,
        Event::Failed,
        Event::Created { role_id: 5 },
        Event::Resolved { member: member(9, "M") },
    ] {
        let waiting = CreateState::Granting { creator: member(9, "M"), role_id: 77 };
        let (state, action) = create(&ctx, "Green", waiting, event);
        assert_eq!(state, CreateState::Finished { created: Some(77), granted: Grant::Refused });
        assert_eq!(action, said("M created the new group Green. Use `/groups join Green` to join."));
    }
}

#[test]
fn the_template_is_the_first_group_of_the_guild() {
    let ctx = Context {
        guild: Some(Guild { id: 77, roles: vec![role(1, "Admin", 8), role(2, "Red", 0), role(3, "Mods", 4)] }),
    };
    let resolved = Event::Resolved { member: member(9, "M") };
    let (_, action) = create(&ctx, "Green", CreateState::Resolving, resolved);
    assert_eq!(action, Action::CreateRole { guild_id: 77, name: "Green".to_string(), permissions: 0 });
}
