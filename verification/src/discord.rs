//! Gateway event handling: every event converges on the same reconciliation
//! decision and, when needed, asks for the member to be enqueued.
//!
//! The gateway connection and the cache live in the program around the
//! library; it hands each event, and what the cache knows of the target
//! guild, to [`BotState::handle_event`], and carries out the action it gets
//! back.

use vstd::prelude::*;

use crate::reconcile::{
    carries_name, decide, decision, has_name, manageable_by_hierarchy, member_is_manageable,
    outranks, role_rank, ReconcileDecision, RoleRank,
};

verus! {

/// A role of the guild, as the cache holds it.
#[derive(Debug, Clone, Copy, PartialEq, Eq, Structural)]
pub struct GuildRole {
    pub id: u64,
    pub position: u16,
}

/// What the role-hierarchy check needs to know of the cached guild.
#[derive(Debug, Clone)]
pub struct GuildSnapshot {
    /// The guild ID, which is also the ID of its `@everyone` role.
    pub id: u64,
    pub owner_id: u64,
    pub roles: Vec<GuildRole>,
}

impl GuildSnapshot {
    /// No two roles share an ID, as in the guild's own role map.
    pub open spec fn distinct_role_ids(&self) -> bool {
        forall|i: int, j: int|
            0 <= i < self.roles@.len() && 0 <= j < self.roles@.len() && i != j
                ==> #[trigger] self.roles@[i].id != #[trigger] self.roles@[j].id
    }
}

/// The guild role with ID `id`, looked up as in the guild's role map.
pub open spec fn role_with_id(roles: Seq<GuildRole>, id: u64) -> Option<GuildRole> {
    if exists|j: int| 0 <= j < roles.len() && #[trigger] roles[j].id == id {
        Some(roles[choose|j: int| 0 <= j < roles.len() && #[trigger] roles[j].id == id])
    } else {
        None
    }
}

/// A looked-up role has the ID asked for; where IDs are distinct, it is the
/// one role with that ID.
pub proof fn lemma_role_with_id(guild: GuildSnapshot, id: u64, j: int)
    requires
        0 <= j < guild.roles@.len(),
        guild.roles@[j].id == id,
    ensures
        role_with_id(guild.roles@, id) matches Some(g) && g.id == id && exists|k: int|
            0 <= k < guild.roles@.len() && guild.roles@[k] == g,
        guild.distinct_role_ids() ==> role_with_id(guild.roles@, id) == Some(guild.roles@[j]),
{
    let roles = guild.roles@;
    assert(roles[j].id == id);
    let k = choose|k: int| 0 <= k < roles.len() && #[trigger] roles[k].id == id;
    assert(roles[k] == roles[k]);
    if guild.distinct_role_ids() && k != j {
        assert(roles[k].id != roles[j].id);
    }
}

/// The standing of a guild role.
pub open spec fn rank_of(role: GuildRole) -> RoleRank {
    RoleRank { position: role.position, role_id: role.id }
}

/// The standing of `@everyone`: position 0, and the guild's own ID.
pub open spec fn everyone_rank(guild_id: u64) -> RoleRank {
    RoleRank { position: 0, role_id: guild_id }
}

/// The highest standing among `base` and the roles in `roles` whose IDs the
/// member holds.
pub open spec fn best_rank_among(roles: Seq<GuildRole>, member_roles: Seq<u64>, base: RoleRank) -> RoleRank
    decreases roles.len(),
{
    if roles.len() == 0 {
        base
    } else {
        let rest = best_rank_among(roles.drop_last(), member_roles, base);
        let last = roles.last();
        if member_roles.contains(last.id) && outranks(rank_of(last), rest) {
            rank_of(last)
        } else {
            rest
        }
    }
}

/// The member's highest role in the guild, falling back to `@everyone`.
pub open spec fn best_rank(guild: GuildSnapshot, member_roles: Seq<u64>) -> RoleRank {
    best_rank_among(guild.roles@, member_roles, everyone_rank(guild.id))
}

/// The member holds a role of the guild with standing `r`.
pub open spec fn holds_rank(roles: Seq<GuildRole>, member_roles: Seq<u64>, r: RoleRank) -> bool {
    exists|j: int| 0 <= j < roles.len() && member_roles.contains(#[trigger] roles[j].id) && rank_of(roles[j]) == r
}

/// The best standing is `base` or one the member holds, and nothing the
/// member holds, nor `base`, sits above it.
pub proof fn lemma_best_rank_among_is_maximum(roles: Seq<GuildRole>, member_roles: Seq<u64>, base: RoleRank)
    ensures
        best_rank_among(roles, member_roles, base) == base || holds_rank(
            roles,
            member_roles,
            best_rank_among(roles, member_roles, base),
        ),
        !outranks(base, best_rank_among(roles, member_roles, base)),
        forall|j: int|
            0 <= j < roles.len() && member_roles.contains(#[trigger] roles[j].id) ==> !outranks(
                rank_of(roles[j]),
                best_rank_among(roles, member_roles, base),
            ),
    decreases roles.len(),
{
    if roles.len() > 0 {
        let prefix = roles.drop_last();
        lemma_best_rank_among_is_maximum(prefix, member_roles, base);
        let rest = best_rank_among(prefix, member_roles, base);
        let best = best_rank_among(roles, member_roles, base);
        assert forall|j: int|
            0 <= j < roles.len() && member_roles.contains(#[trigger] roles[j].id) implies !outranks(
                rank_of(roles[j]),
                best,
            ) by {
            if j < roles.len() - 1 {
                assert(prefix[j] == roles[j]);
            }
        }
        if best == rest && rest != base {
            let j = choose|j: int|
                0 <= j < prefix.len() && member_roles.contains(#[trigger] prefix[j].id) && rank_of(prefix[j]) == rest;
            assert(roles[j] == prefix[j]);
        }
        if best != rest {
            assert(roles[roles.len() - 1] == roles.last());
        }
    }
}

/// The member's highest role, falling back to `@everyone` (position 0, ID
/// equal to the guild ID).
pub fn best_role_rank(guild: &GuildSnapshot, role_ids: &[u64]) -> (r: RoleRank)
    ensures
        r == best_rank(*guild, role_ids@),
        r == everyone_rank(guild.id) || holds_rank(guild.roles@, role_ids@, r),
        !outranks(everyone_rank(guild.id), r),
        forall|j: int|
            0 <= j < guild.roles@.len() && role_ids@.contains(#[trigger] guild.roles@[j].id)
                ==> !outranks(rank_of(guild.roles@[j]), r),
        // Looking each of the member's role IDs up in the guild's roles, as
        // the guild's role map does: no role found sits above the result,
        // and where the guild's role IDs are distinct the result is
        // `@everyone` or the rank of one role found.
        forall|i: int|
            0 <= i < role_ids@.len() && (#[trigger] role_with_id(guild.roles@, role_ids@[i])) is Some
                ==> !outranks(rank_of(role_with_id(guild.roles@, role_ids@[i])->0), r),
        guild.distinct_role_ids() ==> (r == everyone_rank(guild.id) || exists|i: int|
            0 <= i < role_ids@.len() && #[trigger] role_with_id(guild.roles@, role_ids@[i])
                == Some(GuildRole { id: r.role_id, position: r.position })),
{
    let mut best = role_rank(0, guild.id);
    let n: usize = guild.roles.len();
    let mut i: usize = 0;
    while i < n
        invariant
            n == guild.roles@.len(),
            i <= n,
            best == best_rank_among(guild.roles@.take(i as int), role_ids@, everyone_rank(guild.id)),
        decreases n - i,
    {
        let role = guild.roles[i];
        assert(guild.roles@.take(i + 1).drop_last() =~= guild.roles@.take(i as int));
        if holds_role(role_ids, role.id) {
            let candidate = role_rank(role.position, role.id);
            if candidate.outranks(&best) {
                best = candidate;
            }
        }
        i = i + 1;
    }
    assert(guild.roles@.take(n as int) =~= guild.roles@);
    proof {
        let roles = guild.roles@;
        lemma_best_rank_among_is_maximum(roles, role_ids@, everyone_rank(guild.id));
        assert forall|i: int|
            0 <= i < role_ids@.len() && (#[trigger] role_with_id(roles, role_ids@[i])) is Some
                implies !outranks(rank_of(role_with_id(roles, role_ids@[i])->0), best) by {
            let id = role_ids@[i];
            let j = choose|j: int| 0 <= j < roles.len() && #[trigger] roles[j].id == id;
            assert(role_ids@.contains(roles[j].id));
        }
        if guild.distinct_role_ids() && best != everyone_rank(guild.id) {
            let j = choose|j: int|
                0 <= j < roles.len() && role_ids@.contains(#[trigger] roles[j].id) && rank_of(roles[j]) == best;
            let i = choose|i: int| 0 <= i < role_ids@.len() && role_ids@[i] == roles[j].id;
            lemma_role_with_id(*guild, roles[j].id, j);
            assert(roles[j] == GuildRole { id: best.role_id, position: best.position });
            assert(role_with_id(roles, role_ids@[i]) == Some(
                GuildRole { id: best.role_id, position: best.position },
            ));
        }
    }
    best
}

/// Whether `role_ids` holds `id`.
fn holds_role(role_ids: &[u64], id: u64) -> (r: bool)
    ensures
        r == role_ids@.contains(id),
{
    let mut i: usize = 0;
    while i < role_ids.len()
        invariant
            i <= role_ids@.len(),
            forall|j: int| 0 <= j < i ==> role_ids@[j] != id,
        decreases role_ids.len() - i,
    {
        if role_ids[i] == id {
            assert(role_ids@[i as int] == id);
            return true;
        }
        i = i + 1;
    }
    false
}

/// Whether the bot may rename the member, as far as the library can tell:
/// not before the bot knows its own ID, never the bot itself, and by role
/// hierarchy where the guild is cached. An uncached guild leaves the
/// decision to the API.
pub open spec fn manageable(
    bot_user_id: Option<u64>,
    guild: Option<GuildSnapshot>,
    bot_roles: Seq<u64>,
    user_id: u64,
    member_roles: Seq<u64>,
) -> bool {
    match bot_user_id {
        None => false,
        Some(bot_id) => if user_id == bot_id {
            false
        } else {
            match guild {
                None => true,
                Some(g) => manageable_by_hierarchy(
                    g.owner_id,
                    bot_id,
                    user_id,
                    best_rank(g, bot_roles),
                    best_rank(g, member_roles),
                ),
            }
        },
    }
}

/// The bot holds guild role number `k`.
pub open spec fn holds_guild_role(guild: GuildSnapshot, role_ids: Seq<u64>, k: int) -> bool {
    0 <= k < guild.roles@.len() && role_ids.contains(guild.roles@[k].id)
}

/// Manageability goes by the highest role on each side. A member who holds
/// a role of the guild that neither `@everyone` nor any role the bot holds
/// outranks cannot be managed, whatever else they hold. A member other than
/// the owner is manageable when one role the bot holds outranks `@everyone`
/// and every role the member holds.
pub proof fn lemma_manageable_by_highest_roles(
    bot_id: u64,
    guild: GuildSnapshot,
    bot_roles: Seq<u64>,
    user_id: u64,
    member_roles: Seq<u64>,
)
    requires
        user_id != bot_id,
    ensures
        forall|j: int|
            #![trigger holds_guild_role(guild, member_roles, j)]
            holds_guild_role(guild, member_roles, j) && !outranks(
                everyone_rank(guild.id),
                rank_of(guild.roles@[j]),
            ) && (forall|k: int|
                #[trigger] holds_guild_role(guild, bot_roles, k) ==> !outranks(
                    rank_of(guild.roles@[k]),
                    rank_of(guild.roles@[j]),
                )) ==> !manageable(Some(bot_id), Some(guild), bot_roles, user_id, member_roles),
        (user_id != guild.owner_id && exists|k: int|
            #[trigger] holds_guild_role(guild, bot_roles, k) && outranks(
                rank_of(guild.roles@[k]),
                everyone_rank(guild.id),
            ) && (forall|j: int|
                #[trigger] holds_guild_role(guild, member_roles, j) ==> outranks(
                    rank_of(guild.roles@[k]),
                    rank_of(guild.roles@[j]),
                ))) ==> manageable(Some(bot_id), Some(guild), bot_roles, user_id, member_roles),
{
    let roles = guild.roles@;
    let everyone = everyone_rank(guild.id);
    lemma_best_rank_among_is_maximum(roles, bot_roles, everyone);
    lemma_best_rank_among_is_maximum(roles, member_roles, everyone);
    let b = best_rank(guild, bot_roles);
    let m = best_rank(guild, member_roles);
    assert forall|j: int|
        #![trigger holds_guild_role(guild, member_roles, j)]
        holds_guild_role(guild, member_roles, j) && !outranks(everyone, rank_of(roles[j])) && (
        forall|k: int|
            #[trigger] holds_guild_role(guild, bot_roles, k) ==> !outranks(
                rank_of(roles[k]),
                rank_of(roles[j]),
            )) implies !manageable(Some(bot_id), Some(guild), bot_roles, user_id, member_roles) by {
        assert(!outranks(rank_of(roles[j]), m));
        if b != everyone {
            let k = choose|k: int|
                0 <= k < roles.len() && bot_roles.contains(#[trigger] roles[k].id) && rank_of(
                    roles[k],
                ) == b;
            assert(holds_guild_role(guild, bot_roles, k));
        }
        assert(!outranks(b, rank_of(roles[j])));
    }
    if user_id != guild.owner_id && exists|k: int|
        #[trigger] holds_guild_role(guild, bot_roles, k) && outranks(rank_of(roles[k]), everyone)
            && (forall|j: int|
            #[trigger] holds_guild_role(guild, member_roles, j) ==> outranks(
                rank_of(roles[k]),
                rank_of(roles[j]),
            )) {
        let k = choose|k: int|
            #[trigger] holds_guild_role(guild, bot_roles, k) && outranks(rank_of(roles[k]), everyone)
                && (forall|j: int|
                #[trigger] holds_guild_role(guild, member_roles, j) ==> outranks(
                    rank_of(roles[k]),
                    rank_of(roles[j]),
                ));
        assert(!outranks(rank_of(roles[k]), b));
        if m != everyone {
            let j = choose|j: int|
                0 <= j < roles.len() && member_roles.contains(#[trigger] roles[j].id) && rank_of(
                    roles[j],
                ) == m;
            assert(holds_guild_role(guild, member_roles, j));
        }
        assert(outranks(b, m));
    }
}

/// Role-hierarchy manageability using the cached guild. If the guild is not
/// cached the member is treated as manageable and the API stays the final
/// judge.
pub fn is_manageable(
    bot_user_id: Option<u64>,
    guild: Option<&GuildSnapshot>,
    bot_roles: &[u64],
    user_id: u64,
    member_roles: &[u64],
) -> (r: bool)
    ensures
        r == manageable(
            bot_user_id,
            match guild {
                Some(g) => Some(*g),
                None => None,
            },
            bot_roles@,
            user_id,
            member_roles@,
        ),
{
    let bot_id = match bot_user_id {
        None => return false,
        Some(id) => id,
    };
    if user_id == bot_id {
        return false;
    }
    let guild = match guild {
        None => return true,
        Some(g) => g,
    };
    let bot_rank = best_role_rank(guild, bot_roles);
    let member_rank = best_role_rank(guild, member_roles);
    member_is_manageable(guild.owner_id, bot_id, user_id, bot_rank, member_rank)
}

/// What the bot remembers about itself.
pub struct BotState {
    bot_user_id: Option<u64>,
    bot_roles: Vec<u64>,
    sweeping: bool,
}

/// What the bot remembers about itself, as plain values.
pub struct BotStateView {
    /// `None` until the READY event arrives.
    pub bot_user_id: Option<u64>,
    /// The bot's own roles in the target guild.
    pub bot_roles: Seq<u64>,
    /// A full-guild sweep is running.
    pub sweeping: bool,
}

impl View for BotState {
    type V = BotStateView;

    closed spec fn view(&self) -> BotStateView {
        BotStateView {
            bot_user_id: self.bot_user_id,
            bot_roles: self.bot_roles@,
            sweeping: self.sweeping,
        }
    }
}

/// A guild member as the gateway or the member list reports it.
#[derive(Debug, Clone)]
pub struct MemberInfo {
    pub user_id: u64,
    /// The guild nickname, if any.
    pub nick: Option<String>,
    pub roles: Vec<u64>,
}

/// The gateway events the bot acts on.
pub enum GatewayEvent {
    /// The session is ready; the bot learns its own user ID.
    Ready { bot_user_id: u64 },
    /// A guild became available (GUILD_CREATE). `bot_member_roles` holds the
    /// bot's own roles where the payload lists the bot among the members and
    /// the bot already knows its ID.
    GuildAvailable { guild_id: u64, bot_member_roles: Option<Vec<u64>> },
    /// A member joined a guild.
    MemberJoined { guild_id: u64, member: MemberInfo },
    /// A member of a guild changed.
    MemberUpdated { guild_id: u64, member: MemberInfo },
}

/// What the program around the library does in answer to an event.
#[derive(Debug, Clone, Copy, PartialEq, Eq, Structural)]
pub enum GatewayAction {
    /// Nothing to do.
    Nothing,
    /// The event came from a guild other than the target; it is ignored.
    IgnoreForeignGuild,
    /// The target guild is available: run a full-guild sweep.
    StartSweep,
    /// The member deviates from the name: enqueue them for the workers,
    /// which make the edit. The bot itself is enqueued too when its own
    /// nickname was changed; no answer to an event writes anything itself.
    Enqueue(u64),
    /// The member deviates but cannot be managed: skip them.
    SkipUnmanageable(u64),
}

/// The guild an event is about, if any.
pub open spec fn event_guild(event: GatewayEvent) -> Option<u64> {
    match event {
        GatewayEvent::Ready { .. } => None,
        GatewayEvent::GuildAvailable { guild_id, .. } => Some(guild_id),
        GatewayEvent::MemberJoined { guild_id, .. } => Some(guild_id),
        GatewayEvent::MemberUpdated { guild_id, .. } => Some(guild_id),
    }
}

/// The action for a member event in the target guild, from the
/// reconciliation decision.
pub open spec fn member_action(
    state: BotStateView,
    target_guild_id: u64,
    our_name: Seq<char>,
    guild: Option<GuildSnapshot>,
    guild_id: u64,
    member: MemberInfo,
) -> GatewayAction {
    match decision(
        guild_id,
        target_guild_id,
        manageable(state.bot_user_id, guild, state.bot_roles, member.user_id, member.roles@),
        member.nick.deep_view(),
        our_name,
    ) {
        ReconcileDecision::SetNickname => GatewayAction::Enqueue(member.user_id),
        ReconcileDecision::Ignore => GatewayAction::SkipUnmanageable(member.user_id),
        ReconcileDecision::AlreadyCorrect => GatewayAction::Nothing,
    }
}

/// The next state and the action for `event`, when the bot enforces
/// `our_name` in `target_guild_id` and `guild` is what the cache holds of
/// the target guild.
pub open spec fn gateway_step(
    state: BotStateView,
    target_guild_id: u64,
    our_name: Seq<char>,
    guild: Option<GuildSnapshot>,
    event: GatewayEvent,
) -> (BotStateView, GatewayAction) {
    match event {
        GatewayEvent::Ready { bot_user_id } => (
            BotStateView { bot_user_id: Some(bot_user_id), ..state },
            GatewayAction::Nothing,
        ),
        GatewayEvent::GuildAvailable { guild_id, bot_member_roles } => if guild_id
            != target_guild_id {
            (state, GatewayAction::IgnoreForeignGuild)
        } else {
            match bot_member_roles {
                Some(roles) => (BotStateView { bot_roles: roles@, ..state }, GatewayAction::StartSweep),
                None => (state, GatewayAction::StartSweep),
            }
        },
        GatewayEvent::MemberJoined { guild_id, member } => if guild_id != target_guild_id {
            (state, GatewayAction::IgnoreForeignGuild)
        } else {
            (state, member_action(state, target_guild_id, our_name, guild, guild_id, member))
        },
        GatewayEvent::MemberUpdated { guild_id, member } => if guild_id != target_guild_id {
            (state, GatewayAction::IgnoreForeignGuild)
        } else if state.bot_user_id == Some(member.user_id) {
            (
                BotStateView { bot_roles: member.roles@, ..state },
                if carries_name(member.nick.deep_view(), our_name) {
                    GatewayAction::Nothing
                } else {
                    GatewayAction::Enqueue(member.user_id)
                },
            )
        } else {
            (state, member_action(state, target_guild_id, our_name, guild, guild_id, member))
        },
    }
}

/// Any guild other than the target is ignored completely: an event from it
/// changes nothing the bot knows and asks for nothing but to be ignored.
pub proof fn lemma_foreign_guild_ignored(
    state: BotStateView,
    target_guild_id: u64,
    our_name: Seq<char>,
    guild: Option<GuildSnapshot>,
    event: GatewayEvent,
)
    requires
        event_guild(event) is Some,
        event_guild(event) != Some(target_guild_id),
    ensures
        gateway_step(state, target_guild_id, our_name, guild, event) == (
            state,
            GatewayAction::IgnoreForeignGuild,
        ),
{
}

/// A member event of the guild `guild_id` about `member`, if `event` is one.
pub open spec fn member_of_event(event: GatewayEvent) -> Option<(u64, MemberInfo)> {
    match event {
        GatewayEvent::MemberJoined { guild_id, member } => Some((guild_id, member)),
        GatewayEvent::MemberUpdated { guild_id, member } => Some((guild_id, member)),
        _ => None,
    }
}

/// The member whose nickname an event calls for rewriting, if any: a member
/// of the target guild who does not carry the name and is either the bot
/// itself or a member the bot may manage.
pub open spec fn rename_needed(
    state: BotStateView,
    target_guild_id: u64,
    our_name: Seq<char>,
    guild: Option<GuildSnapshot>,
    event: GatewayEvent,
) -> Option<u64> {
    match event {
        GatewayEvent::MemberJoined { guild_id, member } => if guild_id == target_guild_id
            && manageable(state.bot_user_id, guild, state.bot_roles, member.user_id, member.roles@)
            && member.nick.deep_view() != Some(our_name) {
            Some(member.user_id)
        } else {
            None
        },
        GatewayEvent::MemberUpdated { guild_id, member } => if guild_id == target_guild_id
            && member.nick.deep_view() != Some(our_name) && (state.bot_user_id == Some(
            member.user_id,
        ) || manageable(
            state.bot_user_id,
            guild,
            state.bot_roles,
            member.user_id,
            member.roles@,
        )) {
            Some(member.user_id)
        } else {
            None
        },
        _ => None,
    }
}

/// Every nickname an event calls for rewriting is handed to the work queue,
/// the bot's own included, and nothing else is: no answer to a gateway
/// event writes anything itself, and a member already carrying the name is
/// never renamed again, so the updates the bot's own edits cause end the
/// cycle.
pub proof fn lemma_renames_go_through_the_queue(
    state: BotStateView,
    target_guild_id: u64,
    our_name: Seq<char>,
    guild: Option<GuildSnapshot>,
    event: GatewayEvent,
)
    ensures
        ({
            let action = gateway_step(state, target_guild_id, our_name, guild, event).1;
            &&& (action is Enqueue <==> rename_needed(state, target_guild_id, our_name, guild, event)
                is Some)
            &&& (action is Enqueue ==> action == GatewayAction::Enqueue(
                rename_needed(state, target_guild_id, our_name, guild, event)->0,
            ))
        }),
        member_of_event(event) matches Some((guild_id, member)) ==> (member.nick.deep_view() == Some(
            our_name,
        ) ==> !(gateway_step(state, target_guild_id, our_name, guild, event).1 is Enqueue)),
{
}

/// Beginning a sweep: it starts only if none is running, and one is
/// running afterwards.
pub open spec fn begin_sweep_step(state: BotStateView) -> (BotStateView, bool) {
    (BotStateView { sweeping: true, ..state }, !state.sweeping)
}

/// Ending the running sweep.
pub open spec fn end_sweep_step(state: BotStateView) -> BotStateView {
    BotStateView { sweeping: false, ..state }
}

/// At most one full-guild sweep runs at a time: once one has begun, another
/// cannot begin until it ends, and then one can.
pub proof fn lemma_one_sweep_at_a_time(state: BotStateView)
    ensures
        !begin_sweep_step(begin_sweep_step(state).0).1,
        begin_sweep_step(end_sweep_step(state)).1,
{
}

impl BotState {
    /// Nothing known yet, no sweep running.
    pub fn new() -> (s: Self)
        ensures
            s@.bot_user_id is None,
            s@.bot_roles.len() == 0,
            !s@.sweeping,
    {
        BotState { bot_user_id: None, bot_roles: Vec::new(), sweeping: false }
    }

    /// The bot's own user ID, once the READY event told it.
    pub fn bot_user_id(&self) -> (r: Option<u64>)
        ensures
            r == self@.bot_user_id,
    {
        self.bot_user_id
    }

    pub fn set_bot_user_id(&mut self, id: u64)
        ensures
            final(self)@ == (BotStateView { bot_user_id: Some(id), ..old(self)@ }),
    {
        self.bot_user_id = Some(id);
    }

    /// The bot's own roles in the target guild.
    pub fn bot_roles(&self) -> (r: Vec<u64>)
        ensures
            r@ == self@.bot_roles,
    {
        let mut r: Vec<u64> = Vec::new();
        let mut i: usize = 0;
        while i < self.bot_roles.len()
            invariant
                i <= self.bot_roles@.len(),
                r@ == self.bot_roles@.take(i as int),
            decreases self.bot_roles.len() - i,
        {
            r.push(self.bot_roles[i]);
            assert(self.bot_roles@.take(i + 1) =~= self.bot_roles@.take(i as int).push(
                self.bot_roles@[i as int],
            ));
            i = i + 1;
        }
        assert(self.bot_roles@.take(i as int) =~= self.bot_roles@);
        r
    }

    pub fn set_bot_roles(&mut self, roles: Vec<u64>)
        ensures
            final(self)@ == (BotStateView { bot_roles: roles@, ..old(self)@ }),
    {
        self.bot_roles = roles;
    }

    /// Returns false if a sweep is already running; otherwise marks one as
    /// running.
    pub fn begin_sweep(&mut self) -> (started: bool)
        ensures
            (final(self)@, started) == begin_sweep_step(old(self)@),
    {
        let started = !self.sweeping;
        self.sweeping = true;
        started
    }

    /// The running sweep has finished.
    pub fn end_sweep(&mut self)
        ensures
            final(self)@ == end_sweep_step(old(self)@),
    {
        self.sweeping = false;
    }

    /// Records the bot's own roles from its member data and says whether its
    /// own nickname must be restored to the name.
    pub fn sync_own_member(&mut self, roles: Vec<u64>, nick: Option<&str>, our_name: &str) -> (restore: bool)
        ensures
            final(self)@ == (BotStateView { bot_roles: roles@, ..old(self)@ }),
            restore == !carries_name(nick.deep_view(), our_name@),
    {
        self.bot_roles = roles;
        !has_name(nick, our_name)
    }

    /// Whether a periodic repair sweep may run: only once the bot knows its
    /// own ID.
    pub fn ready_for_sweep(&self) -> (r: bool)
        ensures
            r == self@.bot_user_id is Some,
    {
        self.bot_user_id.is_some()
    }

    /// Whether the bot may rename the member, judged with the bot's own ID
    /// and roles and what the cache holds of the target guild.
    pub fn is_manageable(&self, guild: Option<&GuildSnapshot>, user_id: u64, member_roles: &[u64]) -> (r: bool)
        ensures
            r == manageable(
                self@.bot_user_id,
                match guild {
                    Some(g) => Some(*g),
                    None => None,
                },
                self@.bot_roles,
                user_id,
                member_roles@,
            ),
    {
        is_manageable(self.bot_user_id, guild, self.bot_roles.as_slice(), user_id, member_roles)
    }

    /// Handles one gateway event: updates what the bot knows of itself and
    /// says what to do.
    pub fn handle_event(
        &mut self,
        target_guild_id: u64,
        our_name: &str,
        guild: Option<&GuildSnapshot>,
        event: GatewayEvent,
    ) -> (action: GatewayAction)
        ensures
            (final(self)@, action) == gateway_step(
                old(self)@,
                target_guild_id,
                our_name@,
                match guild {
                    Some(g) => Some(*g),
                    None => None,
                },
                event,
            ),
    {
        match event {
            GatewayEvent::Ready { bot_user_id } => {
                self.set_bot_user_id(bot_user_id);
                GatewayAction::Nothing
            },
            GatewayEvent::GuildAvailable { guild_id, bot_member_roles } => {
                if guild_id != target_guild_id {
                    return GatewayAction::IgnoreForeignGuild;
                }
                match bot_member_roles {
                    Some(roles) => self.set_bot_roles(roles),
                    None => {},
                }
                GatewayAction::StartSweep
            },
            GatewayEvent::MemberJoined { guild_id, member } => {
                if guild_id != target_guild_id {
                    return GatewayAction::IgnoreForeignGuild;
                }
                self.member_action(target_guild_id, our_name, guild, guild_id, &member)
            },
            GatewayEvent::MemberUpdated { guild_id, member } => {
                if guild_id != target_guild_id {
                    return GatewayAction::IgnoreForeignGuild;
                }
                if self.bot_user_id == Some(member.user_id) {
                    let nick = match &member.nick {
                        Some(n) => Some(n.as_str()),
                        None => None,
                    };
                    let restore = self.sync_own_member(member.roles.clone(), nick, our_name);
                    return if restore {
                        GatewayAction::Enqueue(member.user_id)
                    } else {
                        GatewayAction::Nothing
                    };
                }
                self.member_action(target_guild_id, our_name, guild, guild_id, &member)
            },
        }
    }

    /// The action for a member event: enqueue a deviating manageable member.
    fn member_action(
        &self,
        target_guild_id: u64,
        our_name: &str,
        guild: Option<&GuildSnapshot>,
        guild_id: u64,
        member: &MemberInfo,
    ) -> (action: GatewayAction)
        ensures
            action == member_action(
                self@,
                target_guild_id,
                our_name@,
                match guild {
                    Some(g) => Some(*g),
                    None => None,
                },
                guild_id,
                *member,
            ),
    {
        let manageable = self.is_manageable(guild, member.user_id, member.roles.as_slice());
        let nick = match &member.nick {
            Some(n) => Some(n.as_str()),
            None => None,
        };
        match decide(guild_id, target_guild_id, manageable, nick, our_name) {
            ReconcileDecision::SetNickname => GatewayAction::Enqueue(member.user_id),
            ReconcileDecision::Ignore => GatewayAction::SkipUnmanageable(member.user_id),
            ReconcileDecision::AlreadyCorrect => GatewayAction::Nothing,
        }
    }
}

} // verus!
