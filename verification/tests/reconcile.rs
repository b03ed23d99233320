use discord_we::reconcile::{decide, member_is_manageable, role_rank, ReconcileDecision};

const GUILD: u64 = 1000;
const OTHER_GUILD: u64 = 2000;

#[test]
fn wrong_guild_is_ignored() {
    assert_eq!(
        decide(OTHER_GUILD, GUILD, true, Some("Someone"), "We"),
        ReconcileDecision::Ignore
    );
}

#[test]
fn unmanageable_member_is_ignored() {
    assert_eq!(
        decide(GUILD, GUILD, false, Some("Someone"), "We"),
        ReconcileDecision::Ignore
    );
}

#[test]
fn correct_nickname_needs_no_update() {
    assert_eq!(
        decide(GUILD, GUILD, true, Some("We"), "We"),
        ReconcileDecision::AlreadyCorrect
    );
}

#[test]
fn missing_nickname_is_updated() {
    assert_eq!(
        decide(GUILD, GUILD, true, None, "We"),
        ReconcileDecision::SetNickname
    );
}

#[test]
fn different_nickname_is_updated() {
    assert_eq!(
        decide(GUILD, GUILD, true, Some("Me"), "We"),
        ReconcileDecision::SetNickname
    );
}

#[test]
fn overridden_name_changes_the_target() {
    assert_eq!(
        decide(GUILD, GUILD, true, Some("We"), "Us"),
        ReconcileDecision::SetNickname
    );
    assert_eq!(
        decide(GUILD, GUILD, true, Some("Us"), "Us"),
        ReconcileDecision::AlreadyCorrect
    );
}

#[test]
fn enforced_name_converges() {
    // After the bot's own edit the member-update event asks for nothing.
    assert_eq!(
        decide(GUILD, GUILD, true, Some("Me"), "We"),
        ReconcileDecision::SetNickname
    );
    assert_eq!(
        decide(GUILD, GUILD, true, Some("We"), "We"),
        ReconcileDecision::AlreadyCorrect
    );
    // Prefixes, suffixes and case differences are deviations.
    assert_eq!(
        decide(GUILD, GUILD, true, Some("We "), "We"),
        ReconcileDecision::SetNickname
    );
    assert_eq!(
        decide(GUILD, GUILD, true, Some("W"), "We"),
        ReconcileDecision::SetNickname
    );
    assert_eq!(
        decide(GUILD, GUILD, true, Some("we"), "We"),
        ReconcileDecision::SetNickname
    );
    assert_eq!(
        decide(GUILD, GUILD, true, Some(""), "We"),
        ReconcileDecision::SetNickname
    );
}

const OWNER: u64 = 1;
const BOT: u64 = 2;
const MEMBER: u64 = 3;

#[test]
fn owner_is_never_manageable() {
    assert!(!member_is_manageable(
        OWNER,
        BOT,
        OWNER,
        role_rank(10, 50),
        role_rank(0, 40)
    ));
}

#[test]
fn bot_itself_is_not_managed_through_this_path() {
    assert!(!member_is_manageable(
        OWNER,
        BOT,
        BOT,
        role_rank(10, 50),
        role_rank(10, 50)
    ));
}

#[test]
fn higher_bot_role_can_manage() {
    assert!(member_is_manageable(
        OWNER,
        BOT,
        MEMBER,
        role_rank(5, 50),
        role_rank(4, 40)
    ));
}

#[test]
fn equal_or_higher_member_role_cannot_be_managed() {
    assert!(!member_is_manageable(
        OWNER,
        BOT,
        MEMBER,
        role_rank(5, 50),
        role_rank(5, 50)
    ));
    assert!(!member_is_manageable(
        OWNER,
        BOT,
        MEMBER,
        role_rank(4, 50),
        role_rank(5, 40)
    ));
}

#[test]
fn position_ties_break_towards_the_older_role() {
    // Same position: the lower (older) role ID sits higher in the guild.
    assert!(member_is_manageable(
        OWNER,
        BOT,
        MEMBER,
        role_rank(5, 100),
        role_rank(5, 200)
    ));
    assert!(!member_is_manageable(
        OWNER,
        BOT,
        MEMBER,
        role_rank(5, 200),
        role_rank(5, 100)
    ));
}

#[test]
fn rank_order_is_strict_and_total() {
    let ranks = [
        role_rank(0, 1),
        role_rank(0, 2),
        role_rank(1, 1),
        role_rank(1, 9),
        role_rank(7, 3),
    ];
    for a in &ranks {
        assert!(!a.outranks(a));
        for b in &ranks {
            if a != b {
                assert!(a.outranks(b) != b.outranks(a));
            }
        }
    }
    assert!(role_rank(2, 9).outranks(&role_rank(1, 1)));
    assert!(role_rank(2, 1).outranks(&role_rank(2, 9)));
}
