//! The rule, kept pure:
//!
//! > Everyone who can become "We" becomes "We".
//! > Anyone who ceases to be "We" becomes "We" again.

use vstd::prelude::*;

use crate::text::same_text;

verus! {

/// What to do about one member.
#[derive(Debug, Clone, Copy, PartialEq, Eq, Structural)]
pub enum ReconcileDecision {
    /// Wrong guild, or a member the bot must not / cannot touch.
    Ignore,
    /// The member already carries the name.
    AlreadyCorrect,
    /// The member must become the name again.
    SetNickname,
}

/// The member's nickname is exactly the desired one.
pub open spec fn carries_name(current_nick: Option<Seq<char>>, desired_nick: Seq<char>) -> bool {
    current_nick == Some(desired_nick)
}

/// The decision for a member of guild `event_guild_id` whose nickname is
/// `current_nick`, when the bot enforces `desired_nick` in `target_guild_id`.
pub open spec fn decision(
    event_guild_id: u64,
    target_guild_id: u64,
    manageable: bool,
    current_nick: Option<Seq<char>>,
    desired_nick: Seq<char>,
) -> ReconcileDecision {
    if event_guild_id != target_guild_id || !manageable {
        ReconcileDecision::Ignore
    } else if carries_name(current_nick, desired_nick) {
        ReconcileDecision::AlreadyCorrect
    } else {
        ReconcileDecision::SetNickname
    }
}

/// Whether a nickname (or its absence) is exactly the desired one.
pub fn has_name(current_nick: Option<&str>, desired_nick: &str) -> (r: bool)
    ensures
        r == carries_name(current_nick.deep_view(), desired_nick@),
{
    match current_nick {
        Some(nick) => same_text(nick, desired_nick),
        None => false,
    }
}

/// The reconciliation decision for one member.
pub fn decide(
    event_guild_id: u64,
    target_guild_id: u64,
    manageable: bool,
    current_nick: Option<&str>,
    desired_nick: &str,
) -> (d: ReconcileDecision)
    ensures
        d == decision(
            event_guild_id,
            target_guild_id,
            manageable,
            current_nick.deep_view(),
            desired_nick@,
        ),
        // Any guild other than the target is ignored completely.
        event_guild_id != target_guild_id ==> d == ReconcileDecision::Ignore,
        // Members the bot cannot manage are never touched.
        !manageable ==> d == ReconcileDecision::Ignore,
        // A member already carrying the name is never renamed again.
        carries_name(current_nick.deep_view(), desired_nick@) ==> d != ReconcileDecision::SetNickname,
        // A manageable member of the target guild without the name is renamed.
        event_guild_id == target_guild_id && manageable && current_nick.deep_view() != Some(
            desired_nick@,
        ) ==> d == ReconcileDecision::SetNickname,
{
    if event_guild_id != target_guild_id {
        return ReconcileDecision::Ignore;
    }
    if !manageable {
        return ReconcileDecision::Ignore;
    }
    if has_name(current_nick, desired_nick) {
        ReconcileDecision::AlreadyCorrect
    } else {
        ReconcileDecision::SetNickname
    }
}

/// The rule in full: a member of another guild, or one the bot cannot
/// manage, is ignored; a manageable member of the target guild is already
/// correct exactly when their nickname is the desired one, and is renamed
/// otherwise (no nickname at all counts as a deviation).
pub proof fn lemma_decision_rules(
    event_guild_id: u64,
    target_guild_id: u64,
    manageable: bool,
    current_nick: Option<Seq<char>>,
    desired_nick: Seq<char>,
)
    ensures
        (decision(event_guild_id, target_guild_id, manageable, current_nick, desired_nick)
            == ReconcileDecision::Ignore) <==> (event_guild_id != target_guild_id || !manageable),
        (decision(event_guild_id, target_guild_id, manageable, current_nick, desired_nick)
            == ReconcileDecision::AlreadyCorrect) <==> (event_guild_id == target_guild_id
            && manageable && current_nick == Some(desired_nick)),
        (decision(event_guild_id, target_guild_id, manageable, current_nick, desired_nick)
            == ReconcileDecision::SetNickname) <==> (event_guild_id == target_guild_id && manageable
            && current_nick != Some(desired_nick)),
{
}

/// Renaming a member to the desired name settles them: the member-update
/// event that Discord sends back for the bot's own edit asks for nothing.
pub proof fn lemma_enforced_name_converges(
    guild_id: u64,
    target_guild_id: u64,
    manageable: bool,
    current_nick: Option<Seq<char>>,
    desired_nick: Seq<char>,
)
    requires
        decision(guild_id, target_guild_id, manageable, current_nick, desired_nick)
            == ReconcileDecision::SetNickname,
    ensures
        decision(guild_id, target_guild_id, manageable, Some(desired_nick), desired_nick)
            == ReconcileDecision::AlreadyCorrect,
{
}

/// A member's standing in the role hierarchy: Discord orders roles by
/// position, and breaks position ties in favour of the *lower* (older) role
/// ID.
#[derive(Debug, Clone, Copy, PartialEq, Eq, Structural)]
pub struct RoleRank {
    pub position: u16,
    pub role_id: u64,
}

/// `a` sits strictly above `b` in the role hierarchy.
pub open spec fn outranks(a: RoleRank, b: RoleRank) -> bool {
    a.position > b.position || (a.position == b.position && a.role_id < b.role_id)
}

/// The standing of the role at `position` with ID `role_id`.
pub fn role_rank(position: u16, role_id: u64) -> (r: RoleRank)
    ensures
        r.position == position,
        r.role_id == role_id,
{
    RoleRank { position, role_id }
}

impl RoleRank {
    /// Whether this role sits strictly above `other`.
    pub fn outranks(&self, other: &RoleRank) -> (r: bool)
        ensures
            r == outranks(*self, *other),
    {
        self.position > other.position || (self.position == other.position && self.role_id
            < other.role_id)
    }
}

/// The hierarchy is a strict total order: no role outranks itself, the
/// relation is transitive, and of two different standings exactly one
/// outranks the other.
pub proof fn lemma_outranks_strict_total_order(a: RoleRank, b: RoleRank, c: RoleRank)
    ensures
        !outranks(a, a),
        outranks(a, b) && outranks(b, c) ==> outranks(a, c),
        outranks(a, b) ==> !outranks(b, a),
        a != b ==> (outranks(a, b) || outranks(b, a)),
        // A higher position wins; on equal positions the lower (older) role
        // ID sits higher.
        a.position > b.position ==> outranks(a, b),
        a.position == b.position ==> (outranks(a, b) <==> a.role_id < b.role_id),
{
}

/// Whether the bot may rename the member by role hierarchy.
pub open spec fn manageable_by_hierarchy(
    owner_id: u64,
    bot_user_id: u64,
    member_user_id: u64,
    bot_best_role: RoleRank,
    member_best_role: RoleRank,
) -> bool {
    member_user_id != bot_user_id && member_user_id != owner_id && outranks(
        bot_best_role,
        member_best_role,
    )
}

/// Role-hierarchy manageability. Discord additionally requires the Manage
/// Nicknames permission; a missing permission surfaces as an HTTP 403 and is
/// handled where the request is made.
pub fn member_is_manageable(
    owner_id: u64,
    bot_user_id: u64,
    member_user_id: u64,
    bot_best_role: RoleRank,
    member_best_role: RoleRank,
) -> (r: bool)
    ensures
        r == manageable_by_hierarchy(
            owner_id,
            bot_user_id,
            member_user_id,
            bot_best_role,
            member_best_role,
        ),
        // The guild owner is never manageable.
        member_user_id == owner_id ==> !r,
        // The bot renames itself through the Change Nickname path instead.
        member_user_id == bot_user_id ==> !r,
        // A member whose best role is at or above the bot's is not manageable.
        !outranks(bot_best_role, member_best_role) ==> !r,
{
    if member_user_id == bot_user_id {
        return false;
    }
    if member_user_id == owner_id {
        return false;
    }
    bot_best_role.outranks(&member_best_role)
}

} // verus!
