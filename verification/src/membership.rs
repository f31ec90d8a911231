//! The `join` and `leave` commands.

use vstd::prelude::*;
use crate::protocol::{
    spec_holdings_after, spec_holdings_after_all, Action, ActionView, Event, EventView,
};
use crate::registry::{find_group, spec_find_group};
use crate::reply::{joined_message, left_message, spec_joined_message, spec_left_message};
use crate::role::{Context, GuildView, Member, MemberView, Role, RoleView};

verus! {

/// How far a `join` or a `leave` has come.
#[derive(Debug, PartialEq, Eq)]
pub enum MembershipState {
    /// Nothing has been done yet.
    Start,
    /// The group was found; the role source was asked for the invoking
    /// member.
    Resolving { role: Role },
    /// The role source was asked to change the member's roles.
    Changing { role: Role, member: Member },
    /// The command is over.
    Finished,
}

/// The mathematical value of a [`MembershipState`].
pub enum MembershipStateView {
    Start,
    Resolving { role: RoleView },
    Changing { role: RoleView, member: MemberView },
    Finished,
}

impl View for MembershipState {
    type V = MembershipStateView;

    open spec fn view(&self) -> MembershipStateView {
        match self {
            MembershipState::Start => MembershipStateView::Start,
            MembershipState::Resolving { role } => MembershipStateView::Resolving { role: role@ },
            MembershipState::Changing { role, member } => MembershipStateView::Changing {
                role: role@,
                member: member@,
            },
            MembershipState::Finished => MembershipStateView::Finished,
        }
    }
}

/// One step of `join` (or, with `leaving`, of `leave`).
///
/// The name is looked up among the groups first. A name that no group goes
/// by ends the command in silence, before anything is asked of the role
/// source; so does a command invoked outside a guild. Then the member is
/// asked for, then the role is given or taken, then the change is
/// confirmed. A failure of the role source at either request ends the
/// command with that failure.
pub open spec fn spec_membership(
    leaving: bool,
    ctx: Option<GuildView>,
    group: Seq<char>,
    state: MembershipStateView,
    event: EventView,
) -> (MembershipStateView, ActionView) {
    match state {
        MembershipStateView::Start => match (ctx, spec_find_group(ctx, group)) {
            (Some(guild), Some(role)) => (
                MembershipStateView::Resolving { role },
                ActionView::GetMember { guild_id: guild.id },
            ),
            _ => (MembershipStateView::Finished, ActionView::Stop),
        },
        MembershipStateView::Resolving { role } => match event {
            EventView::Resolved { member } => (
                MembershipStateView::Changing { role, member },
                if leaving {
                    ActionView::UnassignRole { member_id: member.id, role_id: role.id }
                } else {
                    ActionView::AssignRole { member_id: member.id, role_id: role.id }
                },
            ),
            _ => (MembershipStateView::Finished, ActionView::Propagate),
        },
        MembershipStateView::Changing { role, member } => match event {
            EventView::Applied => (
                MembershipStateView::Finished,
                ActionView::Reply {
                    message: if leaving {
                        spec_left_message(member.display_name, role.name)
                    } else {
                        spec_joined_message(member.display_name, role.name)
                    },
                },
            ),
            _ => (MembershipStateView::Finished, ActionView::Propagate),
        },
        MembershipStateView::Finished => (MembershipStateView::Finished, ActionView::Stop),
    }
}

/// One step of `join`.
pub open spec fn spec_join(
    ctx: Option<GuildView>,
    group: Seq<char>,
    state: MembershipStateView,
    event: EventView,
) -> (MembershipStateView, ActionView) {
    spec_membership(false, ctx, group, state, event)
}

/// One step of `leave`.
pub open spec fn spec_leave(
    ctx: Option<GuildView>,
    group: Seq<char>,
    state: MembershipStateView,
    event: EventView,
) -> (MembershipStateView, ActionView) {
    spec_membership(true, ctx, group, state, event)
}

/// The actions that `join` (or, with `leaving`, `leave`) asks for when it is
/// stepped from `state` on with `events`, one action for each event.
pub open spec fn spec_membership_run(
    leaving: bool,
    ctx: Option<GuildView>,
    group: Seq<char>,
    state: MembershipStateView,
    events: Seq<EventView>,
) -> Seq<ActionView>
    decreases events.len(),
{
    if events.len() == 0 {
        Seq::empty()
    } else {
        let next = spec_membership(leaving, ctx, group, state, events[0]);
        seq![next.1] + spec_membership_run(leaving, ctx, group, next.0, events.drop_first())
    }
}

/// The events of a run in which the role source does all it is asked.
pub open spec fn spec_smooth_run(member: MemberView) -> Seq<EventView> {
    seq![EventView::Invoked, EventView::Resolved { member }, EventView::Applied]
}

fn step(leaving: bool, ctx: &Context, group: &str, state: MembershipState, event: Event) -> (next:
    (MembershipState, Action))
    ensures
        next.0@ == spec_membership(leaving, ctx@, group@, state@, event@).0,
        next.1@ == spec_membership(leaving, ctx@, group@, state@, event@).1,
{
    match state {
        MembershipState::Start => match &ctx.guild {
            Some(guild) => match find_group(ctx, group) {
                Some(role) => (
                    MembershipState::Resolving { role },
                    Action::GetMember { guild_id: guild.id },
                ),
                None => (MembershipState::Finished, Action::Stop),
            },
            None => (MembershipState::Finished, Action::Stop),
        },
        MembershipState::Resolving { role } => match event {
            Event::Resolved { member } => {
                let action = if leaving {
                    Action::UnassignRole { member_id: member.id, role_id: role.id }
                } else {
                    Action::AssignRole { member_id: member.id, role_id: role.id }
                };
                (MembershipState::Changing { role, member }, action)
            },
            _ => (MembershipState::Finished, Action::Propagate),
        },
        MembershipState::Changing { role, member } => match event {
            Event::Applied => {
                let message = if leaving {
                    left_message(member.display_name.as_str(), role.name.as_str())
                } else {
                    joined_message(member.display_name.as_str(), role.name.as_str())
                };
                (MembershipState::Finished, Action::Reply { message })
            },
            _ => (MembershipState::Finished, Action::Propagate),
        },
        MembershipState::Finished => (MembershipState::Finished, Action::Stop),
    }
}

/// Takes the `join` command one step on.
///
/// Start with [`MembershipState::Start`] and [`Event::Invoked`]; do what the
/// action asks, and step again with what came of it, until the action is a
/// final one. The group is found by its exact name among the guild's groups;
/// a name that is none of theirs ends the command at once, with nothing
/// said and nothing changed. Else the invoking member is given the role, and
/// the change is confirmed by the member's and the group's name.
pub fn join(ctx: &Context, group: &str, state: MembershipState, event: Event) -> (next: (
    MembershipState,
    Action,
))
    ensures
        next.0@ == spec_join(ctx@, group@, state@, event@).0,
        next.1@ == spec_join(ctx@, group@, state@, event@).1,
{
    step(false, ctx, group, state, event)
}

/// Takes the `leave` command one step on.
///
/// It runs as [`join`] does, but the role is taken from the member. Whether
/// the member held the role is never looked at: to leave a group that one
/// is not in is asked of the role source all the same, and confirmed all
/// the same.
pub fn leave(ctx: &Context, group: &str, state: MembershipState, event: Event) -> (next: (
    MembershipState,
    Action,
))
    ensures
        next.0@ == spec_leave(ctx@, group@, state@, event@).0,
        next.1@ == spec_leave(ctx@, group@, state@, event@).1,
{
    step(true, ctx, group, state, event)
}

proof fn lemma_run_without_group(
    leaving: bool,
    ctx: Option<GuildView>,
    group: Seq<char>,
    state: MembershipStateView,
    events: Seq<EventView>,
)
    requires
        spec_find_group(ctx, group) is None,
        state is Start || state is Finished,
    ensures
        spec_membership_run(leaving, ctx, group, state, events).len() == events.len(),
        forall|i: int|
            0 <= i < events.len() ==> spec_membership_run(leaving, ctx, group, state, events)[i]
                == ActionView::Stop,
    decreases events.len(),
{
    if events.len() > 0 {
        let next = spec_membership(leaving, ctx, group, state, events[0]);
        lemma_run_without_group(leaving, ctx, group, next.0, events.drop_first());
    }
}

/// A name that no group goes by: whatever is reported to the command, it
/// asks for nothing and says nothing, whether it is `join` or `leave`.
pub proof fn lemma_unknown_group_is_a_silent_no_op(
    leaving: bool,
    ctx: Option<GuildView>,
    group: Seq<char>,
    events: Seq<EventView>,
)
    requires
        spec_find_group(ctx, group) is None,
    ensures
        forall|i: int|
            0 <= i < events.len() ==> spec_membership_run(
                leaving,
                ctx,
                group,
                MembershipStateView::Start,
                events,
            )[i] == ActionView::Stop,
{
    lemma_run_without_group(leaving, ctx, group, MembershipStateView::Start, events);
}

/// How many requests a command in `state` may still make before it ends.
pub open spec fn spec_membership_steps_left(state: MembershipStateView) -> nat {
    match state {
        MembershipStateView::Start => 3,
        MembershipStateView::Resolving { role } => 2,
        MembershipStateView::Changing { role, member } => 1,
        MembershipStateView::Finished => 0,
    }
}

/// Every step brings the command nearer its end, and the command is over
/// exactly when the action is a final one. So whoever steps it until the
/// action is final has stepped at most three times.
pub proof fn lemma_membership_ends(
    leaving: bool,
    ctx: Option<GuildView>,
    group: Seq<char>,
    state: MembershipStateView,
    event: EventView,
)
    ensures
        ({
            let next = spec_membership(leaving, ctx, group, state, event);
            &&& next.1.is_final() <==> next.0 is Finished
            &&& !(state is Finished) ==> spec_membership_steps_left(next.0)
                < spec_membership_steps_left(state)
        }),
{
}

/// The states that a run comes through: the role it works on is the group
/// that the name resolves to.
spec fn spec_membership_inv(
    ctx: Option<GuildView>,
    group: Seq<char>,
    state: MembershipStateView,
) -> bool {
    match state {
        MembershipStateView::Start => true,
        MembershipStateView::Resolving { role } => spec_find_group(ctx, group) == Some(role),
        MembershipStateView::Changing { role, member } => spec_find_group(ctx, group) == Some(role),
        MembershipStateView::Finished => true,
    }
}

/// What a run may ask for: the invoking member of the guild at hand, to
/// give (for `leave`, to take) the one role that the name resolves to, or to
/// end.
pub open spec fn spec_membership_asks(
    leaving: bool,
    ctx: Option<GuildView>,
    group: Seq<char>,
    action: ActionView,
) -> bool {
    match action {
        ActionView::GetMember { guild_id } => ctx matches Some(guild) && guild.id == guild_id,
        ActionView::ResolveMember => false,
        ActionView::AssignRole { member_id, role_id } => {
            &&& !leaving
            &&& spec_find_group(ctx, group) matches Some(role)
            &&& role.id == role_id
        },
        ActionView::UnassignRole { member_id, role_id } => {
            &&& leaving
            &&& spec_find_group(ctx, group) matches Some(role)
            &&& role.id == role_id
        },
        ActionView::CreateRole { guild_id, name, permissions } => false,
        ActionView::Reply { message } => true,
        ActionView::Stop => true,
        ActionView::Propagate => true,
        ActionView::Fail { error } => false,
    }
}

proof fn lemma_run_asks(
    leaving: bool,
    ctx: Option<GuildView>,
    group: Seq<char>,
    state: MembershipStateView,
    events: Seq<EventView>,
)
    requires
        spec_membership_inv(ctx, group, state),
    ensures
        spec_membership_run(leaving, ctx, group, state, events).len() == events.len(),
        forall|i: int|
            0 <= i < events.len() ==> spec_membership_asks(
                leaving,
                ctx,
                group,
                #[trigger] spec_membership_run(leaving, ctx, group, state, events)[i],
            ),
    decreases events.len(),
{
    if events.len() > 0 {
        let next = spec_membership(leaving, ctx, group, state, events[0]);
        lemma_run_asks(leaving, ctx, group, next.0, events.drop_first());
    }
}

/// Whatever is reported to it, `join` changes nothing but to give the role
/// of the group named, and `leave` nothing but to take it; neither creates
/// a role, and neither fails but with a failure of the role source.
pub proof fn lemma_membership_touches_only_the_group(
    leaving: bool,
    ctx: Option<GuildView>,
    group: Seq<char>,
    events: Seq<EventView>,
)
    ensures
        forall|i: int|
            0 <= i < events.len() ==> spec_membership_asks(
                leaving,
                ctx,
                group,
                #[trigger] spec_membership_run(
                    leaving,
                    ctx,
                    group,
                    MembershipStateView::Start,
                    events,
                )[i],
            ),
{
    lemma_run_asks(leaving, ctx, group, MembershipStateView::Start, events);
}

/// The run of a `join` or `leave` of a group that exists, when the role
/// source does all it is asked: the member is asked for, the role is given
/// or taken, and the change is confirmed.
pub proof fn lemma_smooth_run(
    leaving: bool,
    ctx: Option<GuildView>,
    group: Seq<char>,
    member: MemberView,
)
    requires
        spec_find_group(ctx, group) is Some,
    ensures
        ({
            let role = spec_find_group(ctx, group)->0;
            spec_membership_run(
                leaving,
                ctx,
                group,
                MembershipStateView::Start,
                spec_smooth_run(member),
            ) == if leaving {
                seq![
                    ActionView::GetMember { guild_id: ctx->0.id },
                    ActionView::UnassignRole { member_id: member.id, role_id: role.id },
                    ActionView::Reply {
                        message: spec_left_message(member.display_name, role.name),
                    },
                ]
            } else {
                seq![
                    ActionView::GetMember { guild_id: ctx->0.id },
                    ActionView::AssignRole { member_id: member.id, role_id: role.id },
                    ActionView::Reply {
                        message: spec_joined_message(member.display_name, role.name),
                    },
                ]
            }
        }),
{
    let events = spec_smooth_run(member);
    let first = spec_membership(leaving, ctx, group, MembershipStateView::Start, events[0]);
    let second = spec_membership(leaving, ctx, group, first.0, events[1]);
    let third = spec_membership(leaving, ctx, group, second.0, events[2]);
    let after_first = events.drop_first();
    let after_second = after_first.drop_first();
    let after_third = after_second.drop_first();
    assert(spec_membership_run(leaving, ctx, group, third.0, after_third) =~= seq![]);
    assert(spec_membership_run(leaving, ctx, group, second.0, after_second) =~= seq![third.1]);
    assert(spec_membership_run(leaving, ctx, group, first.0, after_first) =~= seq![
        second.1,
        third.1,
    ]);
}

/// To leave a group that one is not in raises no failure and changes
/// nothing: the run is that of any other `leave`, it ends with the
/// confirmation, and all that is held after it is what was held before.
pub proof fn lemma_leave_of_a_group_not_held(
    ctx: Option<GuildView>,
    group: Seq<char>,
    member: MemberView,
    holdings: Set<(u64, u64)>,
)
    requires
        spec_find_group(ctx, group) matches Some(role) && !holdings.contains((member.id, role.id)),
    ensures
        ({
            let role = spec_find_group(ctx, group)->0;
            let run = spec_membership_run(
                true,
                ctx,
                group,
                MembershipStateView::Start,
                spec_smooth_run(member),
            );
            &&& run.last() == ActionView::Reply {
                message: spec_left_message(member.display_name, role.name),
            }
            &&& spec_holdings_after_all(holdings, run) == holdings
        }),
{
    lemma_smooth_run(true, ctx, group, member);
    let run = spec_membership_run(
        true,
        ctx,
        group,
        MembershipStateView::Start,
        spec_smooth_run(member),
    );
    lemma_holdings_after_run(holdings, run);
}

/// To join a group twice is to join it once: the member holds the role
/// after the first run, the second run is confirmed as the first was, and
/// all that is held after both is what was held after one.
pub proof fn lemma_join_twice_is_join_once(
    ctx: Option<GuildView>,
    group: Seq<char>,
    member: MemberView,
    holdings: Set<(u64, u64)>,
)
    requires
        spec_find_group(ctx, group) is Some,
    ensures
        ({
            let role = spec_find_group(ctx, group)->0;
            let run = spec_membership_run(
                false,
                ctx,
                group,
                MembershipStateView::Start,
                spec_smooth_run(member),
            );
            let once = spec_holdings_after_all(holdings, run);
            &&& run.last() == ActionView::Reply {
                message: spec_joined_message(member.display_name, role.name),
            }
            &&& once == holdings.insert((member.id, role.id))
            &&& spec_holdings_after_all(once, run) == once
        }),
{
    lemma_smooth_run(false, ctx, group, member);
    let role = spec_find_group(ctx, group)->0;
    let run = spec_membership_run(
        false,
        ctx,
        group,
        MembershipStateView::Start,
        spec_smooth_run(member),
    );
    let once = holdings.insert((member.id, role.id));
    lemma_holdings_after_run(holdings, run);
    lemma_holdings_after_run(once, run);
}

/// What is held after a run of three actions of which only the second
/// changes anything.
proof fn lemma_holdings_after_run(holdings: Set<(u64, u64)>, run: Seq<ActionView>)
    requires
        run.len() == 3,
        run[0] is GetMember,
        run[2] is Reply,
    ensures
        spec_holdings_after_all(holdings, run) == spec_holdings_after(holdings, run[1]),
{
    let rest1 = run.drop_first();
    let rest2 = rest1.drop_first();
    let rest3 = rest2.drop_first();
    let after = spec_holdings_after(holdings, run[1]);
    assert(spec_holdings_after_all(after, rest3) == after);
    assert(spec_holdings_after_all(after, rest2) == after);
    assert(spec_holdings_after_all(holdings, rest1) == after);
}

} // verus!
