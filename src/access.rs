//! Who may ask for channel sets and who may take them down.
use vstd::prelude::*;
use crate::commands::same_text;

verus! {

/// The role of jam participants.
pub const JAMMER: &'static str = "Jammer";

/// The role of jam organizers.
pub const ORGANIZER: &'static str = "Organizer";

/// Participants and organizers may ask for a channel set.
pub fn can_provision(is_jammer: bool, is_organizer: bool) -> (r: bool)
    ensures
        r == (is_jammer || is_organizer),
{
    is_jammer || is_organizer
}

/// Only organizers may take a channel set down.
pub fn can_tear_down(is_organizer: bool) -> (r: bool)
    ensures
        r == is_organizer,
{
    is_organizer
}

/// Whether a member holding the roles `held` has a role named `wanted`,
/// the guild's roles being `guild_role_ids` with the names
/// `guild_role_names`, position by position.
pub open spec fn holds_named(
    held: Seq<u64>,
    guild_role_ids: Seq<u64>,
    guild_role_names: Seq<String>,
    wanted: Seq<char>,
) -> bool {
    exists|i: int|
        0 <= i < guild_role_ids.len() && i < guild_role_names.len() && #[trigger] guild_role_names[i]@
            == wanted && held.contains(guild_role_ids[i])
}

/// Looks up whether a member holds the role named `wanted`.
pub fn holds_named_role(
    held: &Vec<u64>,
    guild_role_ids: &Vec<u64>,
    guild_role_names: &Vec<String>,
    wanted: &str,
) -> (r: bool)
    ensures
        r == holds_named(held@, guild_role_ids@, guild_role_names@, wanted@),
{
    let mut i: usize = 0;
    while i < guild_role_ids.len() && i < guild_role_names.len()
        invariant
            i <= guild_role_ids@.len(),
            forall|k: int|
                0 <= k < i && k < guild_role_names@.len() && #[trigger] guild_role_names@[k]@ == wanted@
                    ==> !held@.contains(guild_role_ids@[k]),
        decreases guild_role_ids@.len() - i,
    {
        if same_text(guild_role_names[i].as_str(), wanted) {
            let mut j: usize = 0;
            while j < held.len()
                invariant
                    i < guild_role_ids@.len(),
                    i < guild_role_names@.len(),
                    guild_role_names@[i as int]@ == wanted@,
                    j <= held@.len(),
                    forall|k: int| 0 <= k < j ==> held@[k] != guild_role_ids@[i as int],
                decreases held@.len() - j,
            {
                if held[j] == guild_role_ids[i] {
                    assert(held@.contains(guild_role_ids@[i as int]));
                    assert(guild_role_names@[i as int]@ == wanted@);
                    return true;
                }
                j = j + 1;
            }
            assert(!held@.contains(guild_role_ids@[i as int]));
        }
        i = i + 1;
    }
    false
}

} // verus!
