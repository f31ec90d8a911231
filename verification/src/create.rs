//! The `create` command.

use vstd::prelude::*;
use crate::protocol::{Action, ActionView, CommandError, Event, EventView};
use crate::registry::{get_cosmetic_roles, group_pred, spec_cosmetic_roles};
use crate::reply::{created_message, spec_created_message};
use crate::role::{role_views, Context, GuildView, Member, MemberView, RoleView};

verus! {

/// Whether the one who created a group was made a member of it.
#[derive(Clone, Copy, Debug, PartialEq, Eq, Structural)]
pub enum Grant {
    /// The command did not come as far as to ask.
    NotAttempted,
    /// The role source gave the creator the new role.
    Granted,
    /// The role source did not; the group exists all the same.
    Refused,
}

/// How far a `create` has come.
#[derive(Debug, PartialEq, Eq)]
pub enum CreateState {
    /// Nothing has been done yet.
    Start,
    /// The invoking member is being resolved.
    Resolving,
    /// The role source was asked to create the role.
    Creating { creator: Member },
    /// The role exists; the role source was asked to give it to its creator.
    Granting { creator: Member, role_id: u64 },
    /// The command is over: `created` is the new role, if one was made, and
    /// `granted` tells whether its creator got it.
    Finished { created: Option<u64>, granted: Grant },
}

/// The mathematical value of a [`CreateState`].
pub enum CreateStateView {
    Start,
    Resolving,
    Creating { creator: MemberView },
    Granting { creator: MemberView, role_id: u64 },
    Finished { created: Option<u64>, granted: Grant },
}

impl View for CreateState {
    type V = CreateStateView;

    open spec fn view(&self) -> CreateStateView {
        match self {
            CreateState::Start => CreateStateView::Start,
            CreateState::Resolving => CreateStateView::Resolving,
            CreateState::Creating { creator } => CreateStateView::Creating { creator: creator@ },
            CreateState::Granting { creator, role_id } => CreateStateView::Granting {
                creator: creator@,
                role_id: *role_id,
            },
            CreateState::Finished { created, granted } => CreateStateView::Finished {
                created: *created,
                granted: *granted,
            },
        }
    }
}

/// The group whose permissions a new group takes: the first the guild has.
pub open spec fn spec_template(ctx: Option<GuildView>) -> Option<RoleView> {
    let groups = spec_cosmetic_roles(ctx);
    if groups.len() > 0 {
        Some(groups[0])
    } else {
        None
    }
}

/// One step of `create`.
///
/// The invoking member is resolved first, and the command fails if that
/// cannot be done. Then a template is looked for, and the command fails if
/// the guild has no group yet. Then the role is created, under the name
/// given and with the template's permissions, and the command fails if the
/// role source does not create it. Then the creator is given the role; that
/// this may fail does not keep the command from succeeding.
pub open spec fn spec_create(
    ctx: Option<GuildView>,
    group: Seq<char>,
    state: CreateStateView,
    event: EventView,
) -> (CreateStateView, ActionView) {
    match state {
        CreateStateView::Start => (CreateStateView::Resolving, ActionView::ResolveMember),
        CreateStateView::Resolving => match event {
            EventView::Resolved { member } => match (ctx, spec_template(ctx)) {
                (Some(guild), Some(template)) => (
                    CreateStateView::Creating { creator: member },
                    ActionView::CreateRole {
                        guild_id: guild.id,
                        name: group,
                        permissions: template.permissions,
                    },
                ),
                _ => (
                    CreateStateView::Finished { created: None, granted: Grant::NotAttempted },
                    ActionView::Fail { error: CommandError::TemplateMissing },
                ),
            },
            _ => (
                CreateStateView::Finished { created: None, granted: Grant::NotAttempted },
                ActionView::Fail { error: CommandError::MemberUnresolved },
            ),
        },
        CreateStateView::Creating { creator } => match event {
            EventView::Created { role_id } => (
                CreateStateView::Granting { creator, role_id },
                ActionView::AssignRole { member_id: creator.id, role_id },
            ),
            _ => (
                CreateStateView::Finished { created: None, granted: Grant::NotAttempted },
                ActionView::Fail { error: CommandError::CreateFailed },
            ),
        },
        CreateStateView::Granting { creator, role_id } => (
            CreateStateView::Finished {
                created: Some(role_id),
                granted: if event is Applied {
                    Grant::Granted
                } else {
                    Grant::Refused
                },
            },
            ActionView::Reply { message: spec_created_message(creator.display_name, group) },
        ),
        CreateStateView::Finished { created, granted } => (state, ActionView::Stop),
    }
}

/// The actions that `create` asks for when it is stepped from `state` on with
/// `events`, one action for each event.
pub open spec fn spec_create_run(
    ctx: Option<GuildView>,
    group: Seq<char>,
    state: CreateStateView,
    events: Seq<EventView>,
) -> Seq<ActionView>
    decreases events.len(),
{
    if events.len() == 0 {
        Seq::empty()
    } else {
        let next = spec_create(ctx, group, state, events[0]);
        seq![next.1] + spec_create_run(ctx, group, next.0, events.drop_first())
    }
}

/// Takes the `create` command one step on.
///
/// Start with [`CreateState::Start`] and [`Event::Invoked`]; do what the
/// action asks, and step again with what came of it, until the action is a
/// final one. The new group takes its permissions, which are none, from the
/// first group that the guild has; in a guild without groups the command
/// fails and no role is asked for. Once the role exists its creator is given
/// it, and whether or not that went through, the reply names the creator and
/// the group and tells how to join it. The state the command ends in keeps
/// both outcomes apart.
pub fn create(ctx: &Context, group: &str, state: CreateState, event: Event) -> (next: (
    CreateState,
    Action,
))
    ensures
        next.0@ == spec_create(ctx@, group@, state@, event@).0,
        next.1@ == spec_create(ctx@, group@, state@, event@).1,
{
    match state {
        CreateState::Start => (CreateState::Resolving, Action::ResolveMember),
        CreateState::Resolving => match event {
            Event::Resolved { member } => {
                let groups = get_cosmetic_roles(ctx);
                match &ctx.guild {
                    Some(guild) if groups.len() > 0 => {
                        let action = Action::CreateRole {
                            guild_id: guild.id,
                            name: group.to_owned(),
                            permissions: groups[0].permissions,
                        };
                        (CreateState::Creating { creator: member }, action)
                    },
                    _ => (
                        CreateState::Finished { created: None, granted: Grant::NotAttempted },
                        Action::Fail { error: CommandError::TemplateMissing },
                    ),
                }
            },
            _ => (
                CreateState::Finished { created: None, granted: Grant::NotAttempted },
                Action::Fail { error: CommandError::MemberUnresolved },
            ),
        },
        CreateState::Creating { creator } => match event {
            Event::Created { role_id } => {
                let action = Action::AssignRole { member_id: creator.id, role_id };
                (CreateState::Granting { creator, role_id }, action)
            },
            _ => (
                CreateState::Finished { created: None, granted: Grant::NotAttempted },
                Action::Fail { error: CommandError::CreateFailed },
            ),
        },
        CreateState::Granting { creator, role_id } => {
            let granted = match event {
                Event::Applied => Grant::Granted,
                _ => Grant::Refused,
            };
            let message = created_message(creator.display_name.as_str(), group);
            (CreateState::Finished { created: Some(role_id), granted }, Action::Reply { message })
        },
        CreateState::Finished { created, granted } => (
            CreateState::Finished { created, granted },
            Action::Stop,
        ),
    }
}

/// How many requests a command in `state` may still make before it ends.
pub open spec fn spec_create_steps_left(state: CreateStateView) -> nat {
    match state {
        CreateStateView::Start => 4,
        CreateStateView::Resolving => 3,
        CreateStateView::Creating { creator } => 2,
        CreateStateView::Granting { creator, role_id } => 1,
        CreateStateView::Finished { created, granted } => 0,
    }
}

/// Every step brings the command nearer its end, and the command is over
/// exactly when the action is a final one. So whoever steps it until the
/// action is final has stepped at most four times.
pub proof fn lemma_create_ends(
    ctx: Option<GuildView>,
    group: Seq<char>,
    state: CreateStateView,
    event: EventView,
)
    ensures
        ({
            let next = spec_create(ctx, group, state, event);
            &&& next.1.is_final() <==> next.0 is Finished
            &&& !(state is Finished) ==> spec_create_steps_left(next.0) < spec_create_steps_left(
                state,
            )
        }),
{
}

/// The template is a group: it carries no permission.
pub proof fn lemma_template_is_a_group(ctx: Option<GuildView>)
    ensures
        spec_template(ctx) matches Some(template) ==> template.permissions == 0
            && spec_cosmetic_roles(ctx).contains(template),
        spec_template(ctx) is None <==> spec_cosmetic_roles(ctx).len() == 0,
{
    match ctx {
        Some(guild) => {
            let groups = guild.roles.filter(group_pred());
            if groups.len() > 0 {
                guild.roles.lemma_filter_pred(group_pred(), 0);
            }
        },
        None => {},
    }
}

/// What a run may ask for: to resolve the member, to create a role of the
/// name given, without any permission and in the guild at hand, to give a
/// role to a member, or to end. It takes no role from anyone.
pub open spec fn spec_create_asks(
    ctx: Option<GuildView>,
    group: Seq<char>,
    action: ActionView,
) -> bool {
    match action {
        ActionView::CreateRole { guild_id, name, permissions } => {
            &&& name == group
            &&& permissions == 0
            &&& ctx matches Some(guild)
            &&& guild.id == guild_id
        },
        ActionView::GetMember { guild_id } => false,
        ActionView::UnassignRole { member_id, role_id } => false,
        ActionView::Propagate => false,
        _ => true,
    }
}

proof fn lemma_run_asks(
    ctx: Option<GuildView>,
    group: Seq<char>,
    state: CreateStateView,
    events: Seq<EventView>,
)
    ensures
        spec_create_run(ctx, group, state, events).len() == events.len(),
        forall|i: int|
            0 <= i < events.len() ==> spec_create_asks(
                ctx,
                group,
                #[trigger] spec_create_run(ctx, group, state, events)[i],
            ),
    decreases events.len(),
{
    if events.len() > 0 {
        lemma_template_is_a_group(ctx);
        let next = spec_create(ctx, group, state, events[0]);
        lemma_run_asks(ctx, group, next.0, events.drop_first());
    }
}

/// Whatever is reported to it, the only role that `create` asks for has
/// the name given and no permission at all.
pub proof fn lemma_create_makes_a_group(
    ctx: Option<GuildView>,
    group: Seq<char>,
    events: Seq<EventView>,
)
    ensures
        forall|i: int|
            0 <= i < events.len() ==> spec_create_asks(
                ctx,
                group,
                #[trigger] spec_create_run(ctx, group, CreateStateView::Start, events)[i],
            ),
{
    lemma_run_asks(ctx, group, CreateStateView::Start, events);
}

proof fn lemma_run_without_template(
    ctx: Option<GuildView>,
    group: Seq<char>,
    state: CreateStateView,
    events: Seq<EventView>,
)
    requires
        spec_template(ctx) is None,
        state is Start || state is Resolving || state is Finished,
    ensures
        spec_create_run(ctx, group, state, events).len() == events.len(),
        forall|i: int|
            0 <= i < events.len() ==> !(#[trigger] spec_create_run(
                ctx,
                group,
                state,
                events,
            )[i]).is_mutation(),
        forall|i: int|
            0 <= i < events.len() ==> !(#[trigger] spec_create_run(ctx, group, state, events)[i]
                is Reply),
    decreases events.len(),
{
    if events.len() > 0 {
        let next = spec_create(ctx, group, state, events[0]);
        lemma_run_without_template(ctx, group, next.0, events.drop_first());
    }
}

/// In a guild without groups `create` has no template: whatever is
/// reported to it, it asks for no role, gives none and confirms nothing;
/// and once the member is resolved, it fails for want of a template.
pub proof fn lemma_create_needs_a_template(
    ctx: Option<GuildView>,
    group: Seq<char>,
    events: Seq<EventView>,
    member: MemberView,
)
    requires
        spec_cosmetic_roles(ctx).len() == 0,
    ensures
        forall|i: int|
            0 <= i < events.len() ==> !(#[trigger] spec_create_run(
                ctx,
                group,
                CreateStateView::Start,
                events,
            )[i]).is_mutation(),
        forall|i: int|
            0 <= i < events.len() ==> !(#[trigger] spec_create_run(
                ctx,
                group,
                CreateStateView::Start,
                events,
            )[i] is Reply),
        spec_create(ctx, group, CreateStateView::Resolving, EventView::Resolved { member }).1
            == (ActionView::Fail { error: CommandError::TemplateMissing }),
{
    lemma_run_without_template(ctx, group, CreateStateView::Start, events);
}

/// Once the role exists the command succeeds: whether or not its creator
/// was given the role, the reply is the same, and the state that the
/// command ends in tells the two apart.
pub proof fn lemma_create_outlives_the_grant(
    ctx: Option<GuildView>,
    group: Seq<char>,
    creator: MemberView,
    role_id: u64,
    event: EventView,
)
    ensures
        ({
            let next = spec_create(
                ctx,
                group,
                CreateStateView::Granting { creator, role_id },
                event,
            );
            &&& next.1 == ActionView::Reply {
                message: spec_created_message(creator.display_name, group),
            }
            &&& next.0 == CreateStateView::Finished {
                created: Some(role_id),
                granted: if event is Applied {
                    Grant::Granted
                } else {
                    Grant::Refused
                },
            }
        }),
{
}

} // verus!
