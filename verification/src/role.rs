//! Roles, members and the guild a command is invoked in.

use vstd::prelude::*;

verus! {

/// A role of the guild, as the role source reports it.
#[derive(Debug, PartialEq, Eq)]
pub struct Role {
    /// The identifier the role source knows the role by.
    pub id: u64,
    /// The name shown to members.
    pub name: String,
    /// The permission bits the role carries.
    pub permissions: u64,
}

/// The mathematical value of a [`Role`].
pub struct RoleView {
    pub id: u64,
    pub name: Seq<char>,
    pub permissions: u64,
}

impl View for Role {
    type V = RoleView;

    open spec fn view(&self) -> RoleView {
        RoleView { id: self.id, name: self.name@, permissions: self.permissions }
    }
}

impl Clone for Role {
    fn clone(&self) -> (copy: Self)
        ensures
            copy == *self,
    {
        Role { id: self.id, name: self.name.clone(), permissions: self.permissions }
    }
}

/// The values of a sequence of roles, in the same order.
pub open spec fn role_views(roles: Seq<Role>) -> Seq<RoleView> {
    roles.map_values(|role: Role| role@)
}

/// The names of a sequence of roles, in the same order.
pub open spec fn role_names(roles: Seq<RoleView>) -> Seq<Seq<char>> {
    roles.map_values(|role: RoleView| role.name)
}

/// A role is a group exactly when its set of permissions is empty.
pub open spec fn spec_is_group(role: RoleView) -> bool {
    role.permissions == 0
}

/// Tells whether members may join and leave `role` on their own: it may
/// carry no permission at all.
pub fn is_group(role: &Role) -> (group: bool)
    ensures
        group <==> role@.permissions == 0,
        group == spec_is_group(role@),
{
    role.permissions == 0
}

/// A member of the guild: the one who invoked a command.
#[derive(Debug, PartialEq, Eq)]
pub struct Member {
    /// The identifier the role source knows the member by.
    pub id: u64,
    /// The name the member goes by in the guild.
    pub display_name: String,
}

/// The mathematical value of a [`Member`].
pub struct MemberView {
    pub id: u64,
    pub display_name: Seq<char>,
}

impl View for Member {
    type V = MemberView;

    open spec fn view(&self) -> MemberView {
        MemberView { id: self.id, display_name: self.display_name@ }
    }
}

impl Clone for Member {
    fn clone(&self) -> (copy: Self)
        ensures
            copy == *self,
    {
        Member { id: self.id, display_name: self.display_name.clone() }
    }
}

/// A guild as a command finds it when it is invoked.
#[derive(Debug, PartialEq, Eq)]
pub struct Guild {
    /// The identifier the role source knows the guild by.
    pub id: u64,
    /// The roles of the guild, in the order in which the role source gave
    /// them.
    pub roles: Vec<Role>,
}

/// The mathematical value of a [`Guild`].
pub struct GuildView {
    pub id: u64,
    pub roles: Seq<RoleView>,
}

impl View for Guild {
    type V = GuildView;

    open spec fn view(&self) -> GuildView {
        GuildView { id: self.id, roles: role_views(self.roles@) }
    }
}

/// Where a command was invoked. Outside a guild, in a direct message say,
/// there is no guild to read roles from.
#[derive(Debug, PartialEq, Eq)]
pub struct Context {
    pub guild: Option<Guild>,
}

impl View for Context {
    type V = Option<GuildView>;

    open spec fn view(&self) -> Option<GuildView> {
        match self.guild {
            Some(guild) => Some(guild@),
            None => None,
        }
    }
}

} // verus!
