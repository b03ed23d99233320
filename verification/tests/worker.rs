use discord_we::discord::{BotState, GuildRole, GuildSnapshot, MemberInfo};
use discord_we::worker::{
    classify, edit_target, next_page_after, sweep_page, ApiFailure, EditResult, EditTarget, EnforceAttempt,
    EnforceOutcome, EnforceStep, FailureClass, PendingMembers, SweepStats, MAX_ATTEMPTS,
    MEMBERS_PAGE,
};

#[test]
fn queue_coalesces_and_stops() {
    let mut queue = PendingMembers::new();
    assert!(queue.is_accepting());
    assert!(queue.offer(7));
    assert!(queue.is_pending(7));
    assert!(!queue.offer(7));
    assert!(queue.offer(8));
    queue.finish(7);
    assert!(!queue.is_pending(7));
    assert!(queue.offer(7));
    queue.stop_accepting();
    assert!(!queue.is_accepting());
    assert!(!queue.offer(9));
    assert!(!queue.is_pending(9));
    queue.finish(7);
    assert!(!queue.offer(7));
}

#[test]
fn failures_are_classified() {
    assert_eq!(classify(&ApiFailure::Status(403)), FailureClass::Unmanageable);
    assert_eq!(classify(&ApiFailure::Status(404)), FailureClass::Gone);
    assert_eq!(classify(&ApiFailure::Status(429)), FailureClass::Transient);
    assert_eq!(classify(&ApiFailure::Status(500)), FailureClass::Transient);
    assert_eq!(classify(&ApiFailure::Status(503)), FailureClass::Transient);
    assert_eq!(classify(&ApiFailure::Status(599)), FailureClass::Transient);
    assert_eq!(classify(&ApiFailure::Status(600)), FailureClass::Permanent);
    assert_eq!(classify(&ApiFailure::Status(400)), FailureClass::Permanent);
    assert_eq!(classify(&ApiFailure::Status(401)), FailureClass::Permanent);
    assert_eq!(classify(&ApiFailure::OtherHttp), FailureClass::Transient);
    assert_eq!(classify(&ApiFailure::Other), FailureClass::Permanent);
}

#[test]
fn transient_failures_are_retried_with_doubling_backoff() {
    let transient = EditResult::Failed(ApiFailure::Status(502));
    let first = EnforceAttempt::first();
    assert_eq!(first.attempt(), 1);
    let second = match first.step(&transient) {
        EnforceStep::RetryAfter { delay_secs, next } => {
            assert_eq!(delay_secs, 1);
            next
        }
        EnforceStep::Done(_) => panic!("first transient failure must be retried"),
    };
    assert_eq!(second.attempt(), 2);
    let third = match second.step(&transient) {
        EnforceStep::RetryAfter { delay_secs, next } => {
            assert_eq!(delay_secs, 2);
            next
        }
        EnforceStep::Done(_) => panic!("second transient failure must be retried"),
    };
    assert_eq!(third.attempt(), MAX_ATTEMPTS);
    assert!(matches!(
        third.step(&transient),
        EnforceStep::Done(EnforceOutcome::GaveUp)
    ));
    assert!(matches!(
        third.step(&EditResult::Edited),
        EnforceStep::Done(EnforceOutcome::Enforced)
    ));
}

#[test]
fn final_failures_are_not_retried() {
    let first = EnforceAttempt::first();
    assert!(matches!(
        first.step(&EditResult::Edited),
        EnforceStep::Done(EnforceOutcome::Enforced)
    ));
    assert!(matches!(
        first.step(&EditResult::Failed(ApiFailure::Status(403))),
        EnforceStep::Done(EnforceOutcome::Unmanageable)
    ));
    assert!(matches!(
        first.step(&EditResult::Failed(ApiFailure::Status(404))),
        EnforceStep::Done(EnforceOutcome::Gone)
    ));
    assert!(matches!(
        first.step(&EditResult::Failed(ApiFailure::Other)),
        EnforceStep::Done(EnforceOutcome::Failed)
    ));
}

const GUILD: u64 = 1000;
const OWNER: u64 = 1;
const BOT: u64 = 2;

fn member(user_id: u64, nick: Option<&str>, roles: &[u64]) -> MemberInfo {
    MemberInfo {
        user_id,
        nick: nick.map(str::to_owned),
        roles: roles.to_vec(),
    }
}

#[test]
fn a_sweep_page_enqueues_deviating_members_only() {
    let g = GuildSnapshot {
        id: GUILD,
        owner_id: OWNER,
        roles: vec![GuildRole { id: 10, position: 5 }, GuildRole { id: 11, position: 2 }],
    };
    let mut state = BotState::new();
    state.set_bot_user_id(BOT);
    state.set_bot_roles(vec![10]);
    let page = vec![
        member(OWNER, Some("Boss"), &[]),
        member(BOT, Some("Bot"), &[10]),
        member(3, Some("We"), &[11]),
        member(4, None, &[11]),
        member(5, Some("Me"), &[]),
        member(6, Some("Peer"), &[10]),
    ];
    let mut stats = SweepStats::new();
    assert!(stats.can_count(page.len()));
    let to_enqueue = sweep_page(&state, GUILD, "We", Some(&g), &page, &mut stats);
    assert_eq!(to_enqueue, vec![4, 5]);
    assert_eq!(stats.scanned(), 6);
    assert_eq!(stats.enqueued(), 2);
    // The owner and the peer at the bot's own level; the bot is not counted.
    assert_eq!(stats.unmanageable(), 2);
    assert!(stats.can_count(usize::MAX - 6));
    assert!(!stats.can_count(usize::MAX - 5));
    assert_eq!(next_page_after(&page), None);
}

#[test]
fn full_pages_continue_after_their_last_member() {
    let page: Vec<MemberInfo> = (1..=MEMBERS_PAGE as u64).map(|id| member(id, None, &[])).collect();
    assert_eq!(next_page_after(&page), Some(MEMBERS_PAGE as u64));
    assert_eq!(next_page_after(&Vec::new()), None);
    let stats = SweepStats::new();
    assert!(stats.can_count(usize::MAX));
    assert_eq!((stats.scanned(), stats.enqueued(), stats.unmanageable()), (0, 0, 0));
}

#[test]
fn the_bot_is_renamed_through_its_own_path() {
    let mut state = BotState::new();
    assert_eq!(edit_target(&state, BOT), EditTarget::Member);
    state.set_bot_user_id(BOT);
    assert_eq!(edit_target(&state, BOT), EditTarget::OwnNickname);
    assert_eq!(edit_target(&state, 3), EditTarget::Member);
}
