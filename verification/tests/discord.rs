use discord_we::discord::{
    best_role_rank, is_manageable, BotState, GatewayAction, GatewayEvent, GuildRole,
    GuildSnapshot, MemberInfo,
};
use discord_we::reconcile::role_rank;

const GUILD: u64 = 1000;
const OTHER_GUILD: u64 = 2000;
const OWNER: u64 = 1;
const BOT: u64 = 2;
const MEMBER: u64 = 3;

fn guild() -> GuildSnapshot {
    GuildSnapshot {
        id: GUILD,
        owner_id: OWNER,
        roles: vec![
            GuildRole { id: GUILD, position: 0 },
            GuildRole { id: 10, position: 5 },
            GuildRole { id: 11, position: 3 },
            GuildRole { id: 12, position: 5 },
            GuildRole { id: 13, position: 9 },
        ],
    }
}

fn member(user_id: u64, nick: Option<&str>, roles: &[u64]) -> MemberInfo {
    MemberInfo {
        user_id,
        nick: nick.map(str::to_owned),
        roles: roles.to_vec(),
    }
}

fn ready_state(bot_roles: Vec<u64>) -> BotState {
    let mut state = BotState::new();
    state.set_bot_user_id(BOT);
    state.set_bot_roles(bot_roles);
    state
}

#[test]
fn best_role_rank_picks_the_highest_held_role() {
    let g = guild();
    assert_eq!(best_role_rank(&g, &[]), role_rank(0, GUILD));
    assert_eq!(best_role_rank(&g, &[999]), role_rank(0, GUILD));
    assert_eq!(best_role_rank(&g, &[11]), role_rank(3, 11));
    assert_eq!(best_role_rank(&g, &[11, 10]), role_rank(5, 10));
    // Position tie: the older (lower) role ID sits higher.
    assert_eq!(best_role_rank(&g, &[12, 10]), role_rank(5, 10));
    assert_eq!(best_role_rank(&g, &[13, 10, 11]), role_rank(9, 13));
}

#[test]
fn manageability_from_the_cached_guild() {
    let g = guild();
    // Unknown bot ID: nobody is manageable yet.
    assert!(!is_manageable(None, Some(&g), &[13], MEMBER, &[]));
    // The bot itself never.
    assert!(!is_manageable(Some(BOT), Some(&g), &[13], BOT, &[]));
    // Uncached guild: the API decides.
    assert!(is_manageable(Some(BOT), None, &[], MEMBER, &[13]));
    // Hierarchy.
    assert!(is_manageable(Some(BOT), Some(&g), &[10], MEMBER, &[11]));
    assert!(!is_manageable(Some(BOT), Some(&g), &[10], MEMBER, &[10]));
    assert!(!is_manageable(Some(BOT), Some(&g), &[12], MEMBER, &[10]));
    assert!(!is_manageable(Some(BOT), Some(&g), &[13], OWNER, &[]));
    // A bot with no roles cannot manage a member with none either.
    assert!(!is_manageable(Some(BOT), Some(&g), &[], MEMBER, &[]));
}

#[test]
fn foreign_guild_events_are_ignored_completely() {
    let g = guild();
    let mut state = ready_state(vec![13]);
    let events = vec![
        GatewayEvent::GuildAvailable { guild_id: OTHER_GUILD, bot_member_roles: Some(vec![]) },
        GatewayEvent::MemberJoined { guild_id: OTHER_GUILD, member: member(MEMBER, None, &[]) },
        GatewayEvent::MemberUpdated { guild_id: OTHER_GUILD, member: member(BOT, None, &[]) },
    ];
    for event in events {
        assert_eq!(
            state.handle_event(GUILD, "We", Some(&g), event),
            GatewayAction::IgnoreForeignGuild
        );
    }
    assert_eq!(state.bot_roles(), vec![13]);
    assert_eq!(state.bot_user_id(), Some(BOT));
}

#[test]
fn gateway_events_converge_on_the_name() {
    let g = guild();
    let mut state = BotState::new();
    assert_eq!(
        state.handle_event(GUILD, "We", Some(&g), GatewayEvent::Ready { bot_user_id: BOT }),
        GatewayAction::Nothing
    );
    assert_eq!(state.bot_user_id(), Some(BOT));
    assert_eq!(
        state.handle_event(
            GUILD,
            "We",
            Some(&g),
            GatewayEvent::GuildAvailable { guild_id: GUILD, bot_member_roles: Some(vec![13]) }
        ),
        GatewayAction::StartSweep
    );
    assert_eq!(state.bot_roles(), vec![13]);
    // A new member without the name is enqueued.
    assert_eq!(
        state.handle_event(
            GUILD,
            "We",
            Some(&g),
            GatewayEvent::MemberJoined { guild_id: GUILD, member: member(MEMBER, None, &[10]) }
        ),
        GatewayAction::Enqueue(MEMBER)
    );
    // Our own edit comes back carrying the name: nothing more to do.
    assert_eq!(
        state.handle_event(
            GUILD,
            "We",
            Some(&g),
            GatewayEvent::MemberUpdated { guild_id: GUILD, member: member(MEMBER, Some("We"), &[10]) }
        ),
        GatewayAction::Nothing
    );
    // A rename away from the name is enqueued again.
    assert_eq!(
        state.handle_event(
            GUILD,
            "We",
            Some(&g),
            GatewayEvent::MemberUpdated { guild_id: GUILD, member: member(MEMBER, Some("Me"), &[10]) }
        ),
        GatewayAction::Enqueue(MEMBER)
    );
    // The owner is skipped.
    assert_eq!(
        state.handle_event(
            GUILD,
            "We",
            Some(&g),
            GatewayEvent::MemberUpdated { guild_id: GUILD, member: member(OWNER, Some("Boss"), &[]) }
        ),
        GatewayAction::SkipUnmanageable(OWNER)
    );
}

#[test]
fn the_bot_restores_its_own_nickname() {
    let g = guild();
    let mut state = ready_state(vec![10]);
    assert_eq!(
        state.handle_event(
            GUILD,
            "We",
            Some(&g),
            GatewayEvent::MemberUpdated { guild_id: GUILD, member: member(BOT, Some("Bot"), &[13]) }
        ),
        GatewayAction::Enqueue(BOT)
    );
    assert_eq!(state.bot_roles(), vec![13]);
    assert_eq!(
        state.handle_event(
            GUILD,
            "We",
            Some(&g),
            GatewayEvent::MemberUpdated { guild_id: GUILD, member: member(BOT, Some("We"), &[13]) }
        ),
        GatewayAction::Nothing
    );
    // Joining as the bot itself is never enqueued.
    assert_eq!(
        state.handle_event(
            GUILD,
            "We",
            Some(&g),
            GatewayEvent::MemberJoined { guild_id: GUILD, member: member(BOT, None, &[13]) }
        ),
        GatewayAction::SkipUnmanageable(BOT)
    );
}

#[test]
fn periodic_sweeps_wait_for_the_bot_id() {
    let mut state = BotState::new();
    assert!(!state.ready_for_sweep());
    state.set_bot_user_id(BOT);
    assert!(state.ready_for_sweep());
}

#[test]
fn one_sweep_at_a_time() {
    let mut state = BotState::new();
    assert!(state.begin_sweep());
    assert!(!state.begin_sweep());
    state.end_sweep();
    assert!(state.begin_sweep());
}

#[test]
fn own_member_sync() {
    let mut state = ready_state(vec![]);
    assert!(state.sync_own_member(vec![10, 11], None, "We"));
    assert_eq!(state.bot_roles(), vec![10, 11]);
    assert!(!state.sync_own_member(vec![10], Some("We"), "We"));
    assert!(state.sync_own_member(vec![10], Some("We"), "Us"));
}
