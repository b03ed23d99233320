//! Bounded reconciliation: the coalescing set of members waiting in the
//! queue, the classification of API failures and the bounded retry of one
//! nickname edit, and the full-guild sweep one page of members at a time.
//!
//! The channel, the worker tasks, the REST calls and the sleeping between
//! retries belong to the program around the library; it asks the library
//! what to do at each step.

use vstd::prelude::*;

use crate::discord::{manageable, BotState, BotStateView, GuildSnapshot, MemberInfo};
use crate::reconcile::{decide, decision, ReconcileDecision};

verus! {

broadcast use vstd::std_specs::hash::group_hash_axioms;

/// The member IDs waiting in the work queue, and whether new work is still
/// accepted. A member already waiting is not queued a second time.
pub struct PendingMembers {
    pending: std::collections::HashSet<u64>,
    accepting: bool,
}

/// The waiting members and the accepting flag, as plain values.
pub struct PendingView {
    pub pending: Set<u64>,
    pub accepting: bool,
}

impl View for PendingMembers {
    type V = PendingView;

    closed spec fn view(&self) -> PendingView {
        PendingView { pending: self.pending@, accepting: self.accepting }
    }
}

/// Offering `user_id` to the queue: it is taken only while work is accepted
/// and the member is not already waiting.
pub open spec fn offer_step(v: PendingView, user_id: u64) -> (PendingView, bool) {
    if v.accepting && !v.pending.contains(user_id) {
        (PendingView { pending: v.pending.insert(user_id), ..v }, true)
    } else {
        (v, false)
    }
}

impl PendingMembers {
    /// Nothing waiting; work is accepted.
    pub fn new() -> (p: Self)
        ensures
            p@.pending == Set::<u64>::empty(),
            p@.accepting,
    {
        PendingMembers { pending: std::collections::HashSet::new(), accepting: true }
    }

    /// Offers `user_id` to the queue. Returns whether the member must be
    /// sent to the workers; it then counts as waiting.
    pub fn offer(&mut self, user_id: u64) -> (send: bool)
        ensures
            (final(self)@, send) == offer_step(old(self)@, user_id),
    {
        if !self.accepting {
            return false;
        }
        proof {
            assert(vstd::std_specs::hash::obeys_key_model::<u64>());
            assert(vstd::std_specs::hash::builds_valid_hashers::<std::hash::RandomState>());
        }
        let fresh = self.pending.insert(user_id);
        assert(self@.pending == old(self)@.pending.insert(user_id));
        assert(fresh == !old(self)@.pending.contains(user_id));
        if !fresh {
            assert(self@.pending =~= old(self)@.pending);
        }
        fresh
    }

    /// A worker took the member out of the queue, or sending it failed;
    /// later deviations may enqueue the same member again.
    pub fn finish(&mut self, user_id: u64)
        ensures
            final(self)@ == (PendingView { pending: old(self)@.pending.remove(user_id), ..old(self)@ }),
    {
        self.pending.remove(&user_id);
    }

    /// Called on shutdown: new work is refused from now on.
    pub fn stop_accepting(&mut self)
        ensures
            final(self)@ == (PendingView { accepting: false, ..old(self)@ }),
    {
        self.accepting = false;
    }

    /// Whether new work is still accepted.
    pub fn is_accepting(&self) -> (r: bool)
        ensures
            r == self@.accepting,
    {
        self.accepting
    }

    /// Whether the member is waiting in the queue.
    pub fn is_pending(&self, user_id: u64) -> (r: bool)
        ensures
            r == self@.pending.contains(user_id),
    {
        self.pending.contains(&user_id)
    }
}

/// Coalescing: a member offered twice while waiting is sent once; after the
/// worker has taken it, it is accepted again; once the queue stops
/// accepting, nothing is taken and nothing changes.
pub proof fn lemma_queue_coalesces(v: PendingView, user_id: u64)
    ensures
        !offer_step(offer_step(v, user_id).0, user_id).1,
        offer_step(offer_step(v, user_id).0, user_id).0 == offer_step(v, user_id).0,
        v.accepting ==> offer_step(
            PendingView { pending: v.pending.remove(user_id), ..v },
            user_id,
        ).1,
        !v.accepting ==> offer_step(v, user_id) == (v, false),
{
}

/// How the workers write a member's nickname.
#[derive(Debug, Clone, Copy, PartialEq, Eq, Structural)]
pub enum EditTarget {
    /// The bot's own nickname, through the Change Nickname path.
    OwnNickname,
    /// Another member's nickname, through the Manage Nicknames path.
    Member,
}

/// The path by which a queued member's nickname is written: the bot's own
/// through Change Nickname, everyone else's through Manage Nicknames.
pub fn edit_target(state: &BotState, user_id: u64) -> (t: EditTarget)
    ensures
        t == (if state@.bot_user_id == Some(user_id) {
            EditTarget::OwnNickname
        } else {
            EditTarget::Member
        }),
{
    if state.bot_user_id() == Some(user_id) {
        EditTarget::OwnNickname
    } else {
        EditTarget::Member
    }
}

/// Offering a member never drops another: while work is accepted, the
/// waiting set afterwards is the one before plus the member offered, and
/// the offer is sent exactly when the member was not already waiting; once
/// work is refused, nothing changes. Whether work is accepted is untouched.
pub proof fn lemma_offer_keeps_waiting_members(v: PendingView, user_id: u64)
    ensures
        forall|x: u64|
            #[trigger] offer_step(v, user_id).0.pending.contains(x) == (v.pending.contains(x) || (
            v.accepting && x == user_id)),
        offer_step(v, user_id).1 == (v.accepting && !v.pending.contains(user_id)),
        offer_step(v, user_id).0.accepting == v.accepting,
{
}

/// How a failed REST call failed, as far as the decision needs it.
#[derive(Debug, Clone, Copy, PartialEq, Eq, Structural)]
pub enum ApiFailure {
    /// Discord answered with this HTTP status.
    Status(u16),
    /// Another HTTP-level failure (network, timeouts, malformed answers).
    OtherHttp,
    /// Anything else.
    Other,
}

/// What a failure means for the member at hand.
#[derive(Debug, Clone, Copy, PartialEq, Eq, Structural)]
pub enum FailureClass {
    /// Role hierarchy, ownership, or missing permission: expected, final.
    Unmanageable,
    /// The member (or the guild) is gone: final.
    Gone,
    /// Server or network trouble: worth a bounded retry.
    Transient,
    /// Anything else: final, and worth a loud log line.
    Permanent,
}

/// The class of a failure: 403 is unmanageable, 404 gone, 429 and the 5xx
/// server errors transient like other HTTP trouble, everything else
/// permanent.
pub open spec fn failure_class(err: ApiFailure) -> FailureClass {
    match err {
        ApiFailure::Status(code) => if code == 403 {
            FailureClass::Unmanageable
        } else if code == 404 {
            FailureClass::Gone
        } else if code == 429 || (500 <= code && code <= 599) {
            FailureClass::Transient
        } else {
            FailureClass::Permanent
        },
        ApiFailure::OtherHttp => FailureClass::Transient,
        ApiFailure::Other => FailureClass::Permanent,
    }
}

/// Every server error (HTTP 500 through 599), a rate limit (429) and any
/// other HTTP-level trouble are transient; 403 means the member cannot be
/// managed, 404 that they are gone; any other status, and any failure
/// outside HTTP, is permanent.
pub proof fn lemma_failure_classes()
    ensures
        forall|code: u16|
            500 <= code <= 599 ==> #[trigger] failure_class(ApiFailure::Status(code))
                == FailureClass::Transient,
        failure_class(ApiFailure::Status(429)) == FailureClass::Transient,
        failure_class(ApiFailure::Status(403)) == FailureClass::Unmanageable,
        failure_class(ApiFailure::Status(404)) == FailureClass::Gone,
        forall|code: u16|
            code != 403 && code != 404 && code != 429 && !(500 <= code <= 599) ==> #[trigger] failure_class(
                ApiFailure::Status(code),
            ) == FailureClass::Permanent,
        failure_class(ApiFailure::OtherHttp) == FailureClass::Transient,
        failure_class(ApiFailure::Other) == FailureClass::Permanent,
{
}

/// Classifies a failed REST call.
pub fn classify(err: &ApiFailure) -> (c: FailureClass)
    ensures
        c == failure_class(*err),
{
    match err {
        ApiFailure::Status(code) => {
            let code: u16 = *code;
            if code == 403 {
                FailureClass::Unmanageable
            } else if code == 404 {
                FailureClass::Gone
            } else if code == 429 {
                // Serenity's ratelimiter normally absorbs 429s; if one leaks
                // through, backing off is still the right answer.
                FailureClass::Transient
            } else if 500 <= code && code <= 599 {
                FailureClass::Transient
            } else {
                FailureClass::Permanent
            }
        },
        ApiFailure::OtherHttp => FailureClass::Transient,
        ApiFailure::Other => FailureClass::Permanent,
    }
}

/// One nickname edit is tried at most this many times.
pub const MAX_ATTEMPTS: u32 = 3;

/// The wait before the first retry, in seconds; it doubles for each later
/// retry.
pub const INITIAL_BACKOFF_SECS: u64 = 1;

/// The wait after failed attempt number `attempt` (counted from 1).
pub open spec fn backoff_for(attempt: nat) -> nat
    decreases attempt,
{
    if attempt <= 1 {
        INITIAL_BACKOFF_SECS as nat
    } else {
        2 * backoff_for((attempt - 1) as nat)
    }
}

/// Where a nickname edit stands: which attempt is next, and how long to
/// wait should it fail transiently.
pub struct EnforceAttempt {
    attempt: u32,
    backoff_secs: u64,
}

impl EnforceAttempt {
    #[verifier::type_invariant]
    spec fn well_formed(self) -> bool {
        &&& 1 <= self.attempt <= MAX_ATTEMPTS
        &&& self.backoff_secs == backoff_for(self.attempt as nat)
    }

    /// The number of this attempt, counted from 1.
    pub closed spec fn number(self) -> nat {
        self.attempt as nat
    }

    /// The wait before the next attempt should this one fail transiently.
    pub closed spec fn backoff(self) -> nat {
        self.backoff_secs as nat
    }

    /// The first attempt.
    pub fn first() -> (a: Self)
        ensures
            a.number() == 1,
            a.backoff() == INITIAL_BACKOFF_SECS,
    {
        EnforceAttempt { attempt: 1, backoff_secs: INITIAL_BACKOFF_SECS }
    }

    /// The number of this attempt, counted from 1.
    pub fn attempt(&self) -> (n: u32)
        ensures
            n == self.number(),
            1 <= n <= MAX_ATTEMPTS,
    {
        proof {
            use_type_invariant(self);
        }
        self.attempt
    }

    /// What to do after this attempt returned `result`: finish with an
    /// outcome, or wait and try again. Only transient failures are retried,
    /// and never beyond [`MAX_ATTEMPTS`].
    pub fn step(&self, result: &EditResult) -> (s: EnforceStep)
        ensures
            1 <= self.number() <= MAX_ATTEMPTS,
            self.backoff() == backoff_for(self.number()),
            // A server error is retried unless this was the last attempt.
            *result matches EditResult::Failed(ApiFailure::Status(code)) && 500 <= code <= 599
                && self.number() < MAX_ATTEMPTS ==> s is RetryAfter,
            match *result {
                EditResult::Edited => s == EnforceStep::Done(EnforceOutcome::Enforced),
                EditResult::Failed(err) => match failure_class(err) {
                    FailureClass::Unmanageable => s == EnforceStep::Done(
                        EnforceOutcome::Unmanageable,
                    ),
                    FailureClass::Gone => s == EnforceStep::Done(EnforceOutcome::Gone),
                    FailureClass::Permanent => s == EnforceStep::Done(EnforceOutcome::Failed),
                    FailureClass::Transient => if self.number() == MAX_ATTEMPTS {
                        s == EnforceStep::Done(EnforceOutcome::GaveUp)
                    } else {
                        s matches EnforceStep::RetryAfter { delay_secs, next } && delay_secs
                            == self.backoff() && next.number() == self.number() + 1
                            && next.backoff() == 2 * self.backoff()
                    },
                },
            },
    {
        proof {
            use_type_invariant(self);
        }
        match result {
            EditResult::Edited => EnforceStep::Done(EnforceOutcome::Enforced),
            EditResult::Failed(err) => match classify(err) {
                FailureClass::Unmanageable => EnforceStep::Done(EnforceOutcome::Unmanageable),
                FailureClass::Gone => EnforceStep::Done(EnforceOutcome::Gone),
                FailureClass::Permanent => EnforceStep::Done(EnforceOutcome::Failed),
                FailureClass::Transient => {
                    if self.attempt == MAX_ATTEMPTS {
                        EnforceStep::Done(EnforceOutcome::GaveUp)
                    } else {
                        proof {
                            reveal_with_fuel(backoff_for, 3);
                        }
                        let next = EnforceAttempt {
                            attempt: self.attempt + 1,
                            backoff_secs: self.backoff_secs * 2,
                        };
                        EnforceStep::RetryAfter { delay_secs: self.backoff_secs, next }
                    }
                },
            },
        }
    }
}

/// Retries are bounded: waiting after every attempt but the last adds up to
/// three seconds before the edit is given up.
pub proof fn lemma_total_backoff_bounded()
    ensures
        backoff_for(1) + backoff_for(2) == 3,
        MAX_ATTEMPTS == 3,
{
    reveal_with_fuel(backoff_for, 3);
}

/// What one nickname edit returned.
#[derive(Debug, Clone, Copy, PartialEq, Eq, Structural)]
pub enum EditResult {
    Edited,
    Failed(ApiFailure),
}

/// How the enforcement of one member's nickname ended.
#[derive(Debug, Clone, Copy, PartialEq, Eq, Structural)]
pub enum EnforceOutcome {
    /// The member became the name again.
    Enforced,
    /// The bot may not rename the member (hierarchy, ownership, permission).
    Unmanageable,
    /// The member left before reconciliation.
    Gone,
    /// A permanent error.
    Failed,
    /// Transient errors on every attempt.
    GaveUp,
}

/// The next move after one attempt.
pub enum EnforceStep {
    Done(EnforceOutcome),
    RetryAfter { delay_secs: u64, next: EnforceAttempt },
}

/// Discord returns at most this many members per list-members page.
pub const MEMBERS_PAGE: usize = 1000;

/// Counters of a full-guild sweep. Every member counted as enqueued or
/// unmanageable was scanned.
#[derive(Debug, Clone, Copy, PartialEq, Eq, Structural)]
pub struct SweepStats {
    scanned: usize,
    enqueued: usize,
    unmanageable: usize,
}

/// The counters of a sweep, as plain values.
pub struct SweepStatsView {
    pub scanned: nat,
    pub enqueued: nat,
    pub unmanageable: nat,
}

impl View for SweepStats {
    type V = SweepStatsView;

    closed spec fn view(&self) -> SweepStatsView {
        SweepStatsView {
            scanned: self.scanned as nat,
            enqueued: self.enqueued as nat,
            unmanageable: self.unmanageable as nat,
        }
    }
}

impl SweepStats {
    #[verifier::type_invariant]
    spec fn consistent(self) -> bool {
        self.enqueued + self.unmanageable <= self.scanned
    }

    /// All counters at zero.
    pub fn new() -> (s: Self)
        ensures
            s@ == (SweepStatsView { scanned: 0, enqueued: 0, unmanageable: 0 }),
    {
        SweepStats { scanned: 0, enqueued: 0, unmanageable: 0 }
    }

    /// Members scanned so far.
    pub fn scanned(&self) -> (n: usize)
        ensures
            n == self@.scanned,
            self@.enqueued + self@.unmanageable <= self@.scanned,
    {
        proof {
            use_type_invariant(self);
        }
        self.scanned
    }

    /// Members enqueued so far.
    pub fn enqueued(&self) -> (n: usize)
        ensures
            n == self@.enqueued,
    {
        self.enqueued
    }

    /// Members skipped as unmanageable so far, the bot itself not counted.
    pub fn unmanageable(&self) -> (n: usize)
        ensures
            n == self@.unmanageable,
    {
        self.unmanageable
    }

    /// Whether a page of `page_len` members can be counted without the
    /// counters overflowing.
    pub fn can_count(&self, page_len: usize) -> (r: bool)
        ensures
            r == (self@.scanned + page_len <= usize::MAX),
    {
        page_len <= usize::MAX - self.scanned
    }
}

/// The decision for a listed member of the target guild during a sweep.
pub open spec fn sweep_decision(
    state: BotStateView,
    guild_id: u64,
    our_name: Seq<char>,
    guild: Option<GuildSnapshot>,
    member: MemberInfo,
) -> ReconcileDecision {
    decision(
        guild_id,
        guild_id,
        manageable(state.bot_user_id, guild, state.bot_roles, member.user_id, member.roles@),
        member.nick.deep_view(),
        our_name,
    )
}

/// The IDs a sweep enqueues from `members`, in order: those who must become
/// the name again.
pub open spec fn sweep_enqueued(
    state: BotStateView,
    guild_id: u64,
    our_name: Seq<char>,
    guild: Option<GuildSnapshot>,
    members: Seq<MemberInfo>,
) -> Seq<u64>
    decreases members.len(),
{
    if members.len() == 0 {
        Seq::empty()
    } else {
        let rest = sweep_enqueued(state, guild_id, our_name, guild, members.drop_last());
        if sweep_decision(state, guild_id, our_name, guild, members.last())
            == ReconcileDecision::SetNickname {
            rest.push(members.last().user_id)
        } else {
            rest
        }
    }
}

/// How many of `members` a sweep skips as unmanageable: those it ignores,
/// the bot itself not counted.
pub open spec fn sweep_unmanageable(
    state: BotStateView,
    guild_id: u64,
    our_name: Seq<char>,
    guild: Option<GuildSnapshot>,
    members: Seq<MemberInfo>,
) -> nat
    decreases members.len(),
{
    if members.len() == 0 {
        0
    } else {
        let rest = sweep_unmanageable(state, guild_id, our_name, guild, members.drop_last());
        let m = members.last();
        if sweep_decision(state, guild_id, our_name, guild, m) == ReconcileDecision::Ignore
            && state.bot_user_id != Some(m.user_id) {
            rest + 1
        } else {
            rest
        }
    }
}

/// `members` lists a member with ID `user_id` whose decision is to rename.
pub open spec fn lists_deviating_member(
    state: BotStateView,
    guild_id: u64,
    our_name: Seq<char>,
    guild: Option<GuildSnapshot>,
    members: Seq<MemberInfo>,
    user_id: u64,
) -> bool {
    exists|j: int|
        0 <= j < members.len() && #[trigger] members[j].user_id == user_id && sweep_decision(
            state,
            guild_id,
            our_name,
            guild,
            members[j],
        ) == ReconcileDecision::SetNickname
}

/// A sweep never enqueues a member who already carries the name: every ID
/// it enqueues belongs to a listed member whose decision is to rename.
pub proof fn lemma_sweep_enqueues_only_deviating_members(
    state: BotStateView,
    guild_id: u64,
    our_name: Seq<char>,
    guild: Option<GuildSnapshot>,
    members: Seq<MemberInfo>,
)
    ensures
        sweep_enqueued(state, guild_id, our_name, guild, members).len() <= members.len(),
        forall|k: int|
            0 <= k < sweep_enqueued(state, guild_id, our_name, guild, members).len()
                ==> lists_deviating_member(
                state,
                guild_id,
                our_name,
                guild,
                members,
                #[trigger] sweep_enqueued(state, guild_id, our_name, guild, members)[k],
            ),
    decreases members.len(),
{
    if members.len() > 0 {
        let prefix = members.drop_last();
        lemma_sweep_enqueued_prefix(state, guild_id, our_name, guild, members);
        lemma_sweep_enqueues_only_deviating_members(state, guild_id, our_name, guild, prefix);
        let out = sweep_enqueued(state, guild_id, our_name, guild, members);
        let rest = sweep_enqueued(state, guild_id, our_name, guild, prefix);
        assert forall|k: int| 0 <= k < out.len() implies lists_deviating_member(
            state,
            guild_id,
            our_name,
            guild,
            members,
            #[trigger] out[k],
        ) by {
            if k < rest.len() {
                assert(lists_deviating_member(state, guild_id, our_name, guild, prefix, rest[k]));
                let j = choose|j: int|
                    0 <= j < prefix.len() && #[trigger] prefix[j].user_id == rest[k]
                        && sweep_decision(state, guild_id, our_name, guild, prefix[j])
                        == ReconcileDecision::SetNickname;
                assert(members[j] == prefix[j]);
            } else {
                let j = members.len() - 1;
                assert(members[j] == members.last());
            }
        }
    }
}

/// A sweep enqueues exactly the listed members the bot may manage whose
/// nickname is not the configured name `our_name`, in list order, by ID.
pub proof fn lemma_sweep_enqueues_deviating_manageable_members(
    state: BotStateView,
    guild_id: u64,
    our_name: Seq<char>,
    guild: Option<GuildSnapshot>,
    members: Seq<MemberInfo>,
)
    ensures
        sweep_enqueued(state, guild_id, our_name, guild, members) == members.filter(
            |m: MemberInfo|
                manageable(state.bot_user_id, guild, state.bot_roles, m.user_id, m.roles@)
                    && m.nick.deep_view() != Some(our_name),
        ).map_values(|m: MemberInfo| m.user_id),
    decreases members.len(),
{
    let p = |m: MemberInfo|
        manageable(state.bot_user_id, guild, state.bot_roles, m.user_id, m.roles@)
            && m.nick.deep_view() != Some(our_name);
    let f = |m: MemberInfo| m.user_id;
    reveal(Seq::filter);
    if members.len() == 0 {
        assert(members.filter(p).map_values(f) =~= Seq::<u64>::empty());
    } else {
        let prefix = members.drop_last();
        let last = members.last();
        lemma_sweep_enqueues_deviating_manageable_members(state, guild_id, our_name, guild, prefix);
        lemma_sweep_enqueued_prefix(state, guild_id, our_name, guild, members);
        assert((sweep_decision(state, guild_id, our_name, guild, last)
            == ReconcileDecision::SetNickname) == p(last));
        if p(last) {
            assert(members.filter(p) == prefix.filter(p).push(last));
            assert(prefix.filter(p).push(last).map_values(f) =~= prefix.filter(p).map_values(
                f,
            ).push(f(last)));
        } else {
            assert(members.filter(p) == prefix.filter(p));
        }
    }
}

/// A sweep counts as unmanageable exactly the listed members the bot may
/// not manage, the bot itself not counted.
pub proof fn lemma_sweep_counts_unmanageable_members(
    state: BotStateView,
    guild_id: u64,
    our_name: Seq<char>,
    guild: Option<GuildSnapshot>,
    members: Seq<MemberInfo>,
)
    ensures
        sweep_unmanageable(state, guild_id, our_name, guild, members) == members.filter(
            |m: MemberInfo|
                !manageable(state.bot_user_id, guild, state.bot_roles, m.user_id, m.roles@)
                    && state.bot_user_id != Some(m.user_id),
        ).len(),
    decreases members.len(),
{
    let p = |m: MemberInfo|
        !manageable(state.bot_user_id, guild, state.bot_roles, m.user_id, m.roles@)
            && state.bot_user_id != Some(m.user_id);
    reveal(Seq::filter);
    if members.len() > 0 {
        let prefix = members.drop_last();
        let last = members.last();
        lemma_sweep_counts_unmanageable_members(state, guild_id, our_name, guild, prefix);
        assert((sweep_decision(state, guild_id, our_name, guild, last) == ReconcileDecision::Ignore
            && state.bot_user_id != Some(last.user_id)) == p(last));
        if p(last) {
            assert(members.filter(p) == prefix.filter(p).push(last));
        } else {
            assert(members.filter(p) == prefix.filter(p));
        }
    }
}

/// Unfolds one step of [`sweep_enqueued`].
proof fn lemma_sweep_enqueued_prefix(
    state: BotStateView,
    guild_id: u64,
    our_name: Seq<char>,
    guild: Option<GuildSnapshot>,
    members: Seq<MemberInfo>,
)
    requires
        members.len() > 0,
    ensures
        sweep_enqueued(state, guild_id, our_name, guild, members) == (if sweep_decision(
            state,
            guild_id,
            our_name,
            guild,
            members.last(),
        ) == ReconcileDecision::SetNickname {
            sweep_enqueued(state, guild_id, our_name, guild, members.drop_last()).push(
                members.last().user_id,
            )
        } else {
            sweep_enqueued(state, guild_id, our_name, guild, members.drop_last())
        }),
{
}

/// Reconciles one page of the member list of the target guild `guild_id`:
/// counts it into `stats` and returns the IDs to enqueue, in list order.
pub fn sweep_page(
    state: &BotState,
    guild_id: u64,
    our_name: &str,
    guild: Option<&GuildSnapshot>,
    page: &Vec<MemberInfo>,
    stats: &mut SweepStats,
) -> (to_enqueue: Vec<u64>)
    requires
        old(stats)@.scanned + page@.len() <= usize::MAX,
    ensures
        to_enqueue@ == sweep_enqueued(
            state@,
            guild_id,
            our_name@,
            match guild {
                Some(g) => Some(*g),
                None => None,
            },
            page@,
        ),
        to_enqueue@ == page@.filter(
            |m: MemberInfo|
                manageable(
                    state@.bot_user_id,
                    match guild {
                        Some(g) => Some(*g),
                        None => None,
                    },
                    state@.bot_roles,
                    m.user_id,
                    m.roles@,
                ) && m.nick.deep_view() != Some(our_name@),
        ).map_values(|m: MemberInfo| m.user_id),
        final(stats)@.scanned == old(stats)@.scanned + page@.len(),
        final(stats)@.enqueued == old(stats)@.enqueued + to_enqueue@.len(),
        final(stats)@.unmanageable == old(stats)@.unmanageable + sweep_unmanageable(
            state@,
            guild_id,
            our_name@,
            match guild {
                Some(g) => Some(*g),
                None => None,
            },
            page@,
        ),
{
    let ghost g = match guild {
        Some(g) => Some(*g),
        None => None,
    };
    proof {
        use_type_invariant(&*stats);
    }
    let ghost start = *stats;
    let bot_id = state.bot_user_id();
    let mut out: Vec<u64> = Vec::new();
    let mut i: usize = 0;
    while i < page.len()
        invariant
            i <= page@.len(),
            g == (match guild {
                Some(g) => Some(*g),
                None => None,
            }),
            bot_id == state@.bot_user_id,
            start.enqueued + start.unmanageable <= start.scanned,
            start.scanned + page@.len() <= usize::MAX,
            out@ == sweep_enqueued(state@, guild_id, our_name@, g, page@.take(i as int)),
            stats.scanned == start.scanned + i,
            stats.enqueued == start.enqueued + out@.len(),
            stats.unmanageable == start.unmanageable + sweep_unmanageable(
                state@,
                guild_id,
                our_name@,
                g,
                page@.take(i as int),
            ),
            stats.enqueued + stats.unmanageable <= stats.scanned,
        decreases page.len() - i,
    {
        let member = &page[i];
        assert(page@.take(i + 1).drop_last() =~= page@.take(i as int));
        assert(page@.take(i + 1).last() == page@[i as int]);
        stats.scanned = stats.scanned + 1;
        let manageable = state.is_manageable(guild, member.user_id, member.roles.as_slice());
        let nick = match &member.nick {
            Some(n) => Some(n.as_str()),
            None => None,
        };
        match decide(guild_id, guild_id, manageable, nick, our_name) {
            ReconcileDecision::SetNickname => {
                stats.enqueued = stats.enqueued + 1;
                out.push(member.user_id);
            },
            ReconcileDecision::Ignore => {
                if bot_id != Some(member.user_id) {
                    stats.unmanageable = stats.unmanageable + 1;
                }
            },
            ReconcileDecision::AlreadyCorrect => {},
        }
        i = i + 1;
    }
    assert(page@.take(page@.len() as int) =~= page@);
    proof {
        lemma_sweep_enqueues_deviating_manageable_members(state@, guild_id, our_name@, g, page@);
        let p1 = |m: MemberInfo|
            manageable(state@.bot_user_id, g, state@.bot_roles, m.user_id, m.roles@)
                && m.nick.deep_view() != Some(our_name@);
        let p2 = |m: MemberInfo|
            manageable(
                state@.bot_user_id,
                match guild {
                    Some(g) => Some(*g),
                    None => None,
                },
                state@.bot_roles,
                m.user_id,
                m.roles@,
            ) && m.nick.deep_view() != Some(our_name@);
        assert(p1 =~= p2);
    }
    out
}

/// Where the next page of the member list starts: after the last member of
/// a full page; a shorter page is the last one.
pub fn next_page_after(page: &Vec<MemberInfo>) -> (after: Option<u64>)
    ensures
        after == (if page@.len() < MEMBERS_PAGE {
            None
        } else {
            Some(page@.last().user_id)
        }),
{
    if page.len() < MEMBERS_PAGE {
        None
    } else {
        Some(page[page.len() - 1].user_id)
    }
}

} // verus!
