//! The words a command and the program that drives it speak to each other.
//!
//! A command never reaches the role source itself. It is stepped: each step
//! takes what came of the last thing asked (an [`Event`]) and gives the next
//! thing to do (an [`Action`]). The program around the library does what is
//! asked and reports back, until an action ends the command.

use vstd::prelude::*;
use vstd::string::StringExecFns;
use crate::role::{Member, MemberView};

verus! {

/// The failures that a command raises of its own accord.
#[derive(Clone, Copy, Debug, PartialEq, Eq, Structural)]
pub enum CommandError {
    /// The member who invoked the command could not be resolved.
    MemberUnresolved,
    /// The guild has no group yet whose permissions a new one could take.
    TemplateMissing,
    /// The role source did not create the role.
    CreateFailed,
}

impl CommandError {
    /// The text of the failure.
    pub open spec fn spec_message(self) -> Seq<char> {
        match self {
            CommandError::MemberUnresolved => "Could not get member"@,
            CommandError::TemplateMissing => "Failed to get already existing roles"@,
            CommandError::CreateFailed => "Failed to create role"@,
        }
    }

    /// The text to report the failure with.
    pub fn message(&self) -> (text: String)
        ensures
            text@ == self.spec_message(),
    {
        match self {
            CommandError::MemberUnresolved => String::from_str("Could not get member"),
            CommandError::TemplateMissing => String::from_str(
                "Failed to get already existing roles",
            ),
            CommandError::CreateFailed => String::from_str("Failed to create role"),
        }
    }
}

/// What came of the last action.
#[derive(Debug, PartialEq, Eq)]
pub enum Event {
    /// The command was invoked; nothing has been asked for yet.
    Invoked,
    /// The invoking member was resolved.
    Resolved { member: Member },
    /// The role source created the role and knows it by `role_id`.
    Created { role_id: u64 },
    /// The role source made the change to the member's roles.
    Applied,
    /// The role source refused, or could not be reached.
    Failed,
}

/// The mathematical value of an [`Event`].
pub enum EventView {
    Invoked,
    Resolved { member: MemberView },
    Created { role_id: u64 },
    Applied,
    Failed,
}

impl View for Event {
    type V = EventView;

    open spec fn view(&self) -> EventView {
        match self {
            Event::Invoked => EventView::Invoked,
            Event::Resolved { member } => EventView::Resolved { member: member@ },
            Event::Created { role_id } => EventView::Created { role_id: *role_id },
            Event::Applied => EventView::Applied,
            Event::Failed => EventView::Failed,
        }
    }
}

/// What a command wants done next. The first five are requests, and what
/// came of each is reported with the next step. The last four end the
/// command.
#[derive(Debug, PartialEq, Eq)]
pub enum Action {
    /// Ask the role source for the member of this guild who invoked the
    /// command.
    GetMember { guild_id: u64 },
    /// Take the invoking member as the invocation itself brings them.
    ResolveMember,
    /// Give the role to the member.
    AssignRole { member_id: u64, role_id: u64 },
    /// Take the role from the member.
    UnassignRole { member_id: u64, role_id: u64 },
    /// Create a role of this name with these permission bits in this guild.
    CreateRole { guild_id: u64, name: String, permissions: u64 },
    /// Say this to the guild; with that the command has succeeded.
    Reply { message: String },
    /// Say nothing; the command has succeeded with nothing to do.
    Stop,
    /// The command fails with the failure that the role source reported.
    Propagate,
    /// The command fails with a failure of its own.
    Fail { error: CommandError },
}

/// The mathematical value of an [`Action`].
pub enum ActionView {
    GetMember { guild_id: u64 },
    ResolveMember,
    AssignRole { member_id: u64, role_id: u64 },
    UnassignRole { member_id: u64, role_id: u64 },
    CreateRole { guild_id: u64, name: Seq<char>, permissions: u64 },
    Reply { message: Seq<char> },
    Stop,
    Propagate,
    Fail { error: CommandError },
}

impl View for Action {
    type V = ActionView;

    open spec fn view(&self) -> ActionView {
        match self {
            Action::GetMember { guild_id } => ActionView::GetMember { guild_id: *guild_id },
            Action::ResolveMember => ActionView::ResolveMember,
            Action::AssignRole { member_id, role_id } => ActionView::AssignRole {
                member_id: *member_id,
                role_id: *role_id,
            },
            Action::UnassignRole { member_id, role_id } => ActionView::UnassignRole {
                member_id: *member_id,
                role_id: *role_id,
            },
            Action::CreateRole { guild_id, name, permissions } => ActionView::CreateRole {
                guild_id: *guild_id,
                name: name@,
                permissions: *permissions,
            },
            Action::Reply { message } => ActionView::Reply { message: message@ },
            Action::Stop => ActionView::Stop,
            Action::Propagate => ActionView::Propagate,
            Action::Fail { error } => ActionView::Fail { error: *error },
        }
    }
}

impl ActionView {
    /// The action changes what the role source holds.
    pub open spec fn is_mutation(self) -> bool {
        self is AssignRole || self is UnassignRole || self is CreateRole
    }

    /// The action ends the command.
    pub open spec fn is_final(self) -> bool {
        self is Reply || self is Stop || self is Propagate || self is Fail
    }
}

/// Which member holds which role, once the role source has done what
/// `action` asks: a member holds a role or does not, so that to give a role
/// twice is to give it once, and to take a role that is not held takes
/// nothing. `holdings` are the pairs of a member and a role held before.
pub open spec fn spec_holdings_after(holdings: Set<(u64, u64)>, action: ActionView) -> Set<
    (u64, u64),
> {
    match action {
        ActionView::AssignRole { member_id, role_id } => holdings.insert((member_id, role_id)),
        ActionView::UnassignRole { member_id, role_id } => holdings.remove((member_id, role_id)),
        _ => holdings,
    }
}

/// Which member holds which role, once the role source has done all that
/// `actions` ask, in their order.
pub open spec fn spec_holdings_after_all(
    holdings: Set<(u64, u64)>,
    actions: Seq<ActionView>,
) -> Set<(u64, u64)>
    decreases actions.len(),
{
    if actions.len() == 0 {
        holdings
    } else {
        spec_holdings_after_all(
            spec_holdings_after(holdings, actions[0]),
            actions.drop_first(),
        )
    }
}

} // verus!
