//! What is said back to the member who invoked a command.

use vstd::prelude::*;
use vstd::string::StringExecFns;
use crate::text::name_views;

verus! {

/// The reply to `list` in a guild without groups.
pub open spec fn spec_no_groups_message() -> Seq<char> {
    "No groups found"@
}

/// A name set between backticks.
pub open spec fn spec_quoted(name: Seq<char>) -> Seq<char> {
    "`"@ + name + "`"@
}

/// The names, each between backticks, with a comma and a space between one
/// and the next.
pub open spec fn spec_listing(names: Seq<Seq<char>>) -> Seq<char>
    decreases names.len(),
{
    if names.len() == 0 {
        Seq::empty()
    } else if names.len() == 1 {
        spec_quoted(names[0])
    } else {
        spec_listing(names.drop_last()) + ", "@ + spec_quoted(names.last())
    }
}

/// The confirmation that `member` is now in `group`.
pub open spec fn spec_joined_message(member: Seq<char>, group: Seq<char>) -> Seq<char> {
    member + " joined the group `"@ + group + "`"@
}

/// The confirmation that `member` is no longer in `group`.
pub open spec fn spec_left_message(member: Seq<char>, group: Seq<char>) -> Seq<char> {
    member + " left group `"@ + group + "`"@
}

/// The confirmation that `author` made the group `group`, with the command
/// by which others join it.
pub open spec fn spec_created_message(author: Seq<char>, group: Seq<char>) -> Seq<char> {
    author + " created the new group "@ + group + ". Use `/groups join "@ + group
        + "` to join."@
}

/// Says that the guild has no groups.
pub fn no_groups_message() -> (message: String)
    ensures
        message@ == spec_no_groups_message(),
{
    String::from_str("No groups found")
}

/// Writes the names out as one line: each between backticks, separated by a
/// comma and a space.
pub fn listing(names: &Vec<String>) -> (message: String)
    ensures
        message@ == spec_listing(name_views(names@)),
{
    let mut message = String::new();
    let mut i: usize = 0;
    while i < names.len()
        invariant
            i <= names.len(),
            message@ == spec_listing(name_views(names@).take(i as int)),
        decreases names.len() - i,
    {
        proof {
            let shown = name_views(names@).take(i as int);
            let next = name_views(names@).take(i + 1);
            assert(next.drop_last() =~= shown);
        }
        if i > 0 {
            message.append(", ");
        }
        message.append("`");
        message.append(names[i].as_str());
        message.append("`");
        i += 1;
    }
    assert(name_views(names@).take(i as int) =~= name_views(names@));
    message
}

/// Confirms to the guild that `member` joined `group`.
pub fn joined_message(member: &str, group: &str) -> (message: String)
    ensures
        message@ == spec_joined_message(member@, group@),
{
    let mut message = String::from_str(member);
    message.append(" joined the group `");
    message.append(group);
    message.append("`");
    message
}

/// Confirms to the guild that `member` left `group`.
pub fn left_message(member: &str, group: &str) -> (message: String)
    ensures
        message@ == spec_left_message(member@, group@),
{
    let mut message = String::from_str(member);
    message.append(" left group `");
    message.append(group);
    message.append("`");
    message
}

/// Confirms to the guild that `author` created `group`, and tells how to
/// join it.
pub fn created_message(author: &str, group: &str) -> (message: String)
    ensures
        message@ == spec_created_message(author@, group@),
{
    let mut message = String::from_str(author);
    message.append(" created the new group ");
    message.append(group);
    message.append(". Use `/groups join ");
    message.append(group);
    message.append("` to join.");
    message
}

} // verus!
