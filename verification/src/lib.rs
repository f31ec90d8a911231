//! Self-service group membership for a chat community.
//!
//! A *group* is a role of the guild that carries no permission. Members list
//! the groups, join or leave one, or create a new one by command. This crate
//! holds what those commands decide: which roles are groups, how a name typed
//! by a member resolves to one, what is asked of the role source in which
//! order, and what is said back. Talking to the role source is left to the
//! program around it.
//!
//! - [`role`]: roles, members, and the guild a command is invoked in;
//! - [`registry`]: the groups of a guild, and the lookup of one by name;
//! - [`autocomplete`]: suggestions for a name that is being typed;
//! - [`list`], [`membership`], [`create`]: the commands;
//! - [`protocol`]: requests and reports, by which a command is stepped;
//! - [`reply`]: what is said back;
//! - [`text`]: containment and alphabetical order of names.

use vstd::prelude::*;
use crate::protocol::{Action, ActionView};
use crate::role::Context;

pub mod autocomplete;
pub mod create;
pub mod list;
pub mod membership;
pub mod protocol;
pub mod registry;
pub mod reply;
pub mod role;
pub mod text;

verus! {

/// What the command handlers share between invocations: nothing. Every
/// command reads the role source afresh.
pub struct Data {}

/// The command that the others hang below. Invoked by itself it has nothing
/// to do: it asks for nothing, says nothing, and succeeds.
pub fn groups(_ctx: &Context) -> (action: Action)
    ensures
        action@ == ActionView::Stop,
{
    Action::Stop
}

} // verus!
