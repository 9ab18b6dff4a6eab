//! Per-instance decisions of a scheduling pass: the desired deployment from
//! queued commands, whether to start or stop, and which instances to
//! accept, bill or remove.

use vstd::prelude::*;
use crate::text::{chars_of, copy_bytes};

verus! {

/// What a queued command asks, once decoded.
#[derive(Debug, Clone)]
pub enum CommandAction {
    /// Deploy the given deployment (its canonical encoding).
    Deploy { deployment: Vec<u8>, wipe_storage: bool },
    /// Stop running anything.
    Terminate { wipe_storage: bool },
    /// Restart what runs.
    Restart { wipe_storage: bool },
    /// A command whose method or arguments could not be understood.
    Unrecognized,
}

/// A command queued for an instance.
#[derive(Debug, Clone)]
pub struct QueuedCommand {
    pub id: u64,
    pub action: CommandAction,
}

/// The mathematical view of a command action.
pub enum ActionView {
    Deploy(Seq<u8>, bool),
    Terminate(bool),
    Restart(bool),
    Unrecognized,
}

impl View for QueuedCommand {
    type V = (u64, ActionView);

    open spec fn view(&self) -> (u64, ActionView) {
        (
            self.id,
            match self.action {
                CommandAction::Deploy { deployment, wipe_storage } => ActionView::Deploy(
                    deployment@,
                    wipe_storage,
                ),
                CommandAction::Terminate { wipe_storage } => ActionView::Terminate(wipe_storage),
                CommandAction::Restart { wipe_storage } => ActionView::Restart(wipe_storage),
                CommandAction::Unrecognized => ActionView::Unrecognized,
            },
        )
    }
}

/// What an instance should run, after its queued commands.
#[derive(Debug, Clone)]
pub struct DesiredState {
    /// The deployment that should run, if any.
    pub deployment: Option<Vec<u8>>,
    /// Whether storage must be wiped first.
    pub wipe_storage: bool,
    /// Whether the deployment must be restarted even if it already runs.
    pub force_restart: bool,
    /// The identifier of the last command looked at.
    pub last_processed_cmd: Option<u64>,
}

/// The mathematical view of a desired state.
pub struct DesiredView {
    pub deployment: Option<Seq<u8>>,
    pub wipe_storage: bool,
    pub force_restart: bool,
    pub last_processed_cmd: Option<u64>,
}

impl View for DesiredState {
    type V = DesiredView;

    open spec fn view(&self) -> DesiredView {
        DesiredView {
            deployment: match self.deployment {
                Some(d) => Some(d@),
                None => None,
            },
            wipe_storage: self.wipe_storage,
            force_restart: self.force_restart,
            last_processed_cmd: self.last_processed_cmd,
        }
    }
}

/// The effect of one command on the desired state.
pub open spec fn apply_command(s: DesiredView, c: (u64, ActionView)) -> DesiredView {
    let s = DesiredView { last_processed_cmd: Some(c.0), ..s };
    match c.1 {
        ActionView::Deploy(d, w) => DesiredView {
            deployment: Some(d),
            wipe_storage: s.wipe_storage || w,
            ..s
        },
        ActionView::Terminate(w) => DesiredView {
            deployment: None,
            wipe_storage: s.wipe_storage || w,
            ..s
        },
        ActionView::Restart(w) => DesiredView {
            wipe_storage: s.wipe_storage || w,
            force_restart: true,
            ..s
        },
        ActionView::Unrecognized => s,
    }
}

/// The desired state after the commands `cmds`, in order.
pub open spec fn apply_commands(s: DesiredView, cmds: Seq<(u64, ActionView)>) -> DesiredView
    decreases cmds.len(),
{
    if cmds.len() == 0 {
        s
    } else {
        apply_command(apply_commands(s, cmds.drop_last()), cmds.last())
    }
}

/// The desired state before any command: the current deployment.
pub open spec fn initial_desired(current: Option<Seq<u8>>) -> DesiredView {
    DesiredView {
        deployment: current,
        wipe_storage: false,
        force_restart: false,
        last_processed_cmd: None,
    }
}

/// The views of a sequence of commands.
pub open spec fn command_views(cmds: Seq<QueuedCommand>) -> Seq<(u64, ActionView)> {
    cmds.map_values(|c: QueuedCommand| c@)
}

/// The desired state of an instance running `current`, after its queued
/// commands: the last deploy or terminate decides what runs, any command
/// asking for it wipes storage, and a restart forces one.
pub fn derive_desired_state(current: Option<&[u8]>, cmds: &Vec<QueuedCommand>) -> (r:
    DesiredState)
    ensures
        r@ == apply_commands(
            initial_desired(
                match current {
                    Some(d) => Some(d@),
                    None => None,
                },
            ),
            command_views(cmds@),
        ),
{
    let ghost init = initial_desired(
        match current {
            Some(d) => Some(d@),
            None => None,
        },
    );
    let mut r = DesiredState {
        deployment: match current {
            Some(d) => Some(copy_bytes(d)),
            None => None,
        },
        wipe_storage: false,
        force_restart: false,
        last_processed_cmd: None,
    };
    let mut i: usize = 0;
    while i < cmds.len()
        invariant
            i <= cmds@.len(),
            r@ == apply_commands(init, command_views(cmds@).subrange(0, i as int)),
        decreases cmds@.len() - i,
    {
        let c = &cmds[i];
        let ghost before = r@;
        r.last_processed_cmd = Some(c.id);
        match &c.action {
            CommandAction::Deploy { deployment, wipe_storage } => {
                r.deployment = Some(copy_bytes(deployment.as_slice()));
                r.wipe_storage = r.wipe_storage || *wipe_storage;
            },
            CommandAction::Terminate { wipe_storage } => {
                r.deployment = None;
                r.wipe_storage = r.wipe_storage || *wipe_storage;
            },
            CommandAction::Restart { wipe_storage } => {
                r.wipe_storage = r.wipe_storage || *wipe_storage;
                r.force_restart = true;
            },
            CommandAction::Unrecognized => {},
        }
        proof {
            let prefix = command_views(cmds@).subrange(0, i + 1);
            assert(prefix.drop_last() =~= command_views(cmds@).subrange(0, i as int));
            assert(prefix.last() == cmds@[i as int]@);
            assert(r@ == apply_command(before, cmds@[i as int]@));
        }
        i = i + 1;
    }
    assert(command_views(cmds@).subrange(0, cmds@.len() as int) =~= command_views(cmds@));
    r
}


/// Whether a command asks for storage to be wiped.
pub open spec fn asks_wipe(a: ActionView) -> bool {
    match a {
        ActionView::Deploy(_, w) => w,
        ActionView::Terminate(w) => w,
        ActionView::Restart(w) => w,
        ActionView::Unrecognized => false,
    }
}

/// Whether a command decides what runs (a deploy or a terminate).
pub open spec fn is_decisive(a: ActionView) -> bool {
    a is Deploy || a is Terminate
}

/// What a decisive command says should run.
pub open spec fn decided_deployment(a: ActionView) -> Option<Seq<u8>> {
    match a {
        ActionView::Deploy(d, _) => Some(d),
        _ => None,
    }
}

/// Storage is wiped exactly when the initial state asked for it or some
/// command does; a restart is forced exactly when asked initially or some
/// command is a restart; the last command looked at is the last one queued.
pub proof fn lemma_commands_accumulate(s: DesiredView, cmds: Seq<(u64, ActionView)>)
    ensures
        apply_commands(s, cmds).wipe_storage == (s.wipe_storage || exists|i: int|
            0 <= i < cmds.len() && asks_wipe(#[trigger] cmds[i].1)),
        apply_commands(s, cmds).force_restart == (s.force_restart || exists|i: int|
            0 <= i < cmds.len() && (#[trigger] cmds[i].1) is Restart),
        cmds.len() > 0 ==> apply_commands(s, cmds).last_processed_cmd == Some(cmds.last().0),
        cmds.len() == 0 ==> apply_commands(s, cmds).last_processed_cmd == s.last_processed_cmd,
    decreases cmds.len(),
{
    if cmds.len() > 0 {
        let p = cmds.drop_last();
        lemma_commands_accumulate(s, p);
        assert forall|i: int| 0 <= i < p.len() implies #[trigger] p[i] == cmds[i] by {}
        if exists|i: int| 0 <= i < cmds.len() && asks_wipe(#[trigger] cmds[i].1) {
            let i = choose|i: int| 0 <= i < cmds.len() && asks_wipe(#[trigger] cmds[i].1);
            if i < p.len() {
                assert(asks_wipe(p[i].1));
            }
        }
        if exists|i: int| 0 <= i < cmds.len() && (#[trigger] cmds[i].1) is Restart {
            let i = choose|i: int| 0 <= i < cmds.len() && (#[trigger] cmds[i].1) is Restart;
            if i < p.len() {
                assert(p[i].1 is Restart);
            }
        }
    }
}

/// What runs is decided by the last deploy or terminate command; with none
/// queued, the current deployment stays.
pub proof fn lemma_last_decisive_command_wins(s: DesiredView, cmds: Seq<(u64, ActionView)>)
    ensures
        (forall|i: int| 0 <= i < cmds.len() ==> !is_decisive(#[trigger] cmds[i].1))
            ==> apply_commands(s, cmds).deployment == s.deployment,
        forall|k: int|
            0 <= k < cmds.len() && is_decisive(#[trigger] cmds[k].1) && (forall|j: int|
                k < j < cmds.len() ==> !is_decisive(#[trigger] cmds[j].1))
                ==> apply_commands(s, cmds).deployment == decided_deployment(cmds[k].1),
    decreases cmds.len(),
{
    if cmds.len() > 0 {
        let p = cmds.drop_last();
        lemma_last_decisive_command_wins(s, p);
        assert forall|i: int| 0 <= i < p.len() implies #[trigger] p[i] == cmds[i] by {}
        assert forall|k: int|
            0 <= k < cmds.len() && is_decisive(#[trigger] cmds[k].1) && (forall|j: int|
                k < j < cmds.len() ==> !is_decisive(#[trigger] cmds[j].1)) implies apply_commands(
            s,
            cmds,
        ).deployment == decided_deployment(cmds[k].1) by {
            if k < cmds.len() - 1 {
                assert(!is_decisive(cmds[cmds.len() - 1].1));
                assert(is_decisive(p[k].1));
                assert forall|j: int| k < j < p.len() implies !is_decisive(#[trigger] p[j].1) by {
                    assert(!is_decisive(cmds[j].1));
                }
            }
        }
        if forall|i: int| 0 <= i < cmds.len() ==> !is_decisive(#[trigger] cmds[i].1) {
            assert forall|i: int| 0 <= i < p.len() implies !is_decisive(#[trigger] p[i].1) by {
                assert(!is_decisive(cmds[i].1));
            }
            assert(!is_decisive(cmds[cmds.len() - 1].1));
        }
    }
}


/// The market status of an instance.
#[derive(Debug, Clone, Copy, PartialEq, Eq)]
pub enum InstanceStatus {
    Created,
    Accepted,
    Cancelled,
}

/// What discovery does with an instance listed by the market.
#[derive(Debug, Clone, Copy, PartialEq, Eq)]
pub enum DiscoverDecision {
    /// Not ours to host, or not accepted yet.
    Skip,
    /// Cancelled: consider removing it, counting from `since`.
    ScheduleRemoval { since: u64 },
    /// Ours but no longer paid for: stop it if it runs, and consider
    /// removing it, counting from `since`.
    Unpaid { stop: bool, since: u64 },
    /// Ours and paid for: bring it to its desired state.
    Manage,
}

/// What discovery does with an instance of status `status`, hosted on this
/// node when `hosted_here`, paid until `paid_until`, last updated at
/// `updated_at`, at time `now`, running here when `running`.
pub open spec fn spec_discover_decision(
    status: InstanceStatus,
    hosted_here: bool,
    paid_until: u64,
    updated_at: u64,
    now: u64,
    running: bool,
) -> DiscoverDecision {
    match status {
        InstanceStatus::Created => DiscoverDecision::Skip,
        InstanceStatus::Cancelled => DiscoverDecision::ScheduleRemoval { since: updated_at },
        InstanceStatus::Accepted => if !hosted_here {
            DiscoverDecision::Skip
        } else if paid_until < now {
            DiscoverDecision::Unpaid { stop: running, since: paid_until }
        } else {
            DiscoverDecision::Manage
        },
    }
}

/// What discovery does with an instance listed by the market.
pub fn discover_decision(
    status: InstanceStatus,
    hosted_here: bool,
    paid_until: u64,
    updated_at: u64,
    now: u64,
    running: bool,
) -> (r: DiscoverDecision)
    ensures
        r == spec_discover_decision(status, hosted_here, paid_until, updated_at, now, running),
{
    match status {
        InstanceStatus::Created => DiscoverDecision::Skip,
        InstanceStatus::Cancelled => DiscoverDecision::ScheduleRemoval { since: updated_at },
        InstanceStatus::Accepted => {
            if !hosted_here {
                DiscoverDecision::Skip
            } else if paid_until < now {
                DiscoverDecision::Unpaid { stop: running, since: paid_until }
            } else {
                DiscoverDecision::Manage
            }
        },
    }
}

/// What to do with a managed instance's bundle.
#[derive(Debug, Clone, Copy, PartialEq, Eq)]
pub enum InstanceAction {
    /// It runs what it should, or nothing and should: leave it.
    Nothing,
    /// (Re)start it with the desired deployment.
    Start { wipe_storage: bool },
    /// Stop it.
    Stop { wipe_storage: bool },
}

/// What to do with a managed instance: `running_hash` is the deployment
/// hash label of its running bundle (`None` when it runs nothing; an empty
/// label when the bundle has none), `desired_hash` the hash of the desired
/// deployment (`None` when nothing should run).
pub open spec fn spec_instance_action(
    running_hash: Option<Seq<char>>,
    desired_hash: Option<Seq<char>>,
    force_restart: bool,
    wipe_storage: bool,
) -> InstanceAction {
    match (running_hash, desired_hash) {
        (Some(actual), Some(desired)) => if actual != desired || force_restart {
            InstanceAction::Start { wipe_storage }
        } else {
            InstanceAction::Nothing
        },
        (None, Some(_)) => InstanceAction::Start { wipe_storage },
        (Some(_), None) => InstanceAction::Stop { wipe_storage },
        (None, None) => InstanceAction::Nothing,
    }
}

/// What to do with a managed instance's bundle.
pub fn instance_action(
    running_hash: Option<&str>,
    desired_hash: Option<&str>,
    force_restart: bool,
    wipe_storage: bool,
) -> (r: InstanceAction)
    ensures
        r == spec_instance_action(
            crate::http::opt_text(running_hash),
            crate::http::opt_text(desired_hash),
            force_restart,
            wipe_storage,
        ),
{
    match (running_hash, desired_hash) {
        (Some(actual), Some(desired)) => {
            if !crate::text::text_equal(actual, desired) || force_restart {
                InstanceAction::Start { wipe_storage }
            } else {
                InstanceAction::Nothing
            }
        },
        (None, Some(_)) => InstanceAction::Start { wipe_storage },
        (Some(_), None) => InstanceAction::Stop { wipe_storage },
        (None, None) => InstanceAction::Nothing,
    }
}

/// What to do with an instance waiting to be accepted.
#[derive(Debug, Clone, Copy, PartialEq, Eq)]
pub enum PendingDecision {
    /// Not a candidate.
    Skip,
    /// Refused; when `maybe_remove`, consider removing it.
    Reject { maybe_remove: bool },
    /// Accept it; when `transfer`, take it over from its current node.
    Accept { transfer: bool },
}

/// What to do with an instance waiting to be accepted: one just created, or
/// one accepted by another node that this one may take over.
pub open spec fn spec_pending_decision(
    status: InstanceStatus,
    owner_is_local: bool,
    transfer_allowed: bool,
    creator_allowed: bool,
    offer_acceptable: bool,
    capacity_ok: bool,
) -> PendingDecision {
    let candidate = match status {
        InstanceStatus::Created => Some(false),
        InstanceStatus::Accepted => if owner_is_local || !transfer_allowed {
            None
        } else {
            Some(true)
        },
        InstanceStatus::Cancelled => None,
    };
    match candidate {
        None => PendingDecision::Skip,
        Some(transfer) => if creator_allowed && offer_acceptable && capacity_ok {
            PendingDecision::Accept { transfer }
        } else {
            PendingDecision::Reject { maybe_remove: !transfer }
        },
    }
}

/// What to do with an instance waiting to be accepted.
pub fn pending_decision(
    status: InstanceStatus,
    owner_is_local: bool,
    transfer_allowed: bool,
    creator_allowed: bool,
    offer_acceptable: bool,
    capacity_ok: bool,
) -> (r: PendingDecision)
    ensures
        r == spec_pending_decision(
            status,
            owner_is_local,
            transfer_allowed,
            creator_allowed,
            offer_acceptable,
            capacity_ok,
        ),
        r is Accept ==> creator_allowed && offer_acceptable && capacity_ok,
        !capacity_ok ==> (r is Skip || r is Reject),
        r matches PendingDecision::Accept { transfer } ==> transfer == (status is Accepted),
{
    let transfer = match status {
        InstanceStatus::Created => false,
        InstanceStatus::Accepted => {
            if owner_is_local || !transfer_allowed {
                return PendingDecision::Skip;
            }
            true
        },
        InstanceStatus::Cancelled => {
            return PendingDecision::Skip;
        },
    };
    if !creator_allowed || !offer_acceptable || !capacity_ok {
        return PendingDecision::Reject { maybe_remove: !transfer };
    }
    PendingDecision::Accept { transfer }
}

/// An instance is accepted only when its creator is allowed, its offer is
/// acceptable and the node has the capacity for it; without capacity it
/// is skipped or refused. A created instance is accepted as new, one
/// accepted elsewhere is taken over, and a cancelled one is never
/// accepted.
pub proof fn lemma_accept_needs_capacity(
    status: InstanceStatus,
    owner_is_local: bool,
    transfer_allowed: bool,
    creator_allowed: bool,
    offer_acceptable: bool,
    capacity_ok: bool,
)
    ensures
        ({
            let d = spec_pending_decision(
                status,
                owner_is_local,
                transfer_allowed,
                creator_allowed,
                offer_acceptable,
                capacity_ok,
            );
            &&& d is Accept ==> creator_allowed && offer_acceptable && capacity_ok
            &&& !capacity_ok ==> (d is Skip || d is Reject)
            &&& !creator_allowed ==> (d is Skip || d is Reject)
            &&& !offer_acceptable ==> (d is Skip || d is Reject)
            &&& status is Cancelled ==> d is Skip
            &&& d matches PendingDecision::Accept { transfer } ==> transfer == (status is Accepted)
            &&& (status is Created && creator_allowed && offer_acceptable && capacity_ok) ==> d
                == PendingDecision::Accept { transfer: false }
            &&& (status is Created && !(creator_allowed && offer_acceptable && capacity_ok)) ==> d
                == PendingDecision::Reject { maybe_remove: true }
        }),
{
}

/// Whether an offer is acceptable: it names an offer key in its metadata,
/// and either no offers are configured or its key is one of them.
pub open spec fn spec_offer_acceptable(offer_key: Option<Seq<char>>, configured: Seq<Seq<char>>) -> bool {
    match offer_key {
        None => false,
        Some(k) => configured.len() == 0 || configured.contains(k),
    }
}

/// Whether an offer is acceptable.
pub fn offer_acceptable(offer_key: Option<&str>, configured: &Vec<String>) -> (r: bool)
    ensures
        r == spec_offer_acceptable(
            crate::http::opt_text(offer_key),
            configured@.map_values(|s: String| s@),
        ),
{
    let ghost views = configured@.map_values(|s: String| s@);
    let k = match offer_key {
        None => return false,
        Some(k) => k,
    };
    if configured.len() == 0 {
        return true;
    }
    let mut i: usize = 0;
    while i < configured.len()
        invariant
            i <= configured@.len(),
            views == configured@.map_values(|s: String| s@),
            crate::http::opt_text(offer_key) == Some(k@),
            configured@.len() > 0,
            forall|j: int| 0 <= j < i ==> views[j] != k@,
        decreases configured@.len() - i,
    {
        if crate::text::text_equal(configured[i].as_str(), k) {
            assert(views[i as int] == k@);
            return true;
        }
        i = i + 1;
    }
    assert(!views.contains(k@));
    false
}

/// The last consensus round whose pass went through to the end; `0`
/// before any did.
pub struct RoundTracker {
    last_round: u64,
}

impl View for RoundTracker {
    type V = u64;

    closed spec fn view(&self) -> u64 {
        self.last_round
    }
}

impl RoundTracker {
    /// A tracker that has completed no round.
    pub fn new() -> (r: RoundTracker)
        ensures
            r@ == 0,
    {
        RoundTracker { last_round: 0 }
    }

    /// Whether a pass that discovered state at `round` goes on: only for a
    /// round after the last one completed, so no round is processed twice.
    pub fn should_process(&self, round: u64) -> (r: bool)
        ensures
            r == (round > self@),
    {
        round > self.last_round
    }

    /// Records that the pass of `round` went through its jobs.
    pub fn complete(&mut self, round: u64)
        ensures
            final(self)@ == round,
    {
        self.last_round = round;
    }
}

/// Average number of seconds after which instances that are not accepted
/// are removed.
pub const REMOVE_INSTANCE_AFTER_SECS: u64 = 1800;

/// `secs` scaled by `percent` percent, rounded down.
pub fn jittered_secs(secs: u64, percent: u64) -> (r: u64)
    requires
        secs * percent <= u64::MAX,
    ensures
        r == secs * percent / 100,
{
    secs * percent / 100
}

/// The percentages a jittered interval is drawn from: 75 up to, not
/// including, 125.
pub const JITTER_LOW_PERCENT: u64 = 75;

/// The end (excluded) of the jitter percentages.
pub const JITTER_HIGH_PERCENT: u64 = 125;

/// `secs` scaled by `percent` percent, rounded down.
pub open spec fn scaled_secs(secs: u64, percent: u64) -> int {
    secs * percent / 100
}

/// A number drawn at random, uniformly, from `low..high`.
///
/// Trusted: calls `rand::Rng::sample` on `rand::thread_rng()` with the
/// distribution `rand::distributions::Uniform::new(low, high)`, which
/// samples in `[low, high)` and panics unless `low < high` (rand 0.8.8,
/// distributions/uniform.rs). Which number is drawn is left unsaid.
#[verifier::external_body]
fn sample_uniform(low: u64, high: u64) -> (r: u64)
    requires
        low < high,
    ensures
        low <= r < high,
{
    rand::Rng::sample(&mut rand::thread_rng(), rand::distributions::Uniform::new(low, high))
}

/// `secs` scaled by a percentage drawn at random from 75 to 124 and
/// rounded down, so that schedulers do not all act at the same moment.
pub fn random_jittered_secs(secs: u64) -> (r: u64)
    requires
        secs * 124 <= u64::MAX,
    ensures
        exists|p: u64|
            JITTER_LOW_PERCENT <= p < JITTER_HIGH_PERCENT && r == #[trigger] scaled_secs(secs, p),
        secs * 75 / 100 <= r <= secs * 124 / 100,
{
    let p = sample_uniform(JITTER_LOW_PERCENT, JITTER_HIGH_PERCENT);
    assert(secs * p <= secs * 124) by (nonlinear_arith)
        requires
            p <= 124,
    ;
    let r = jittered_secs(secs, p);
    assert(secs * 75 / 100 <= r <= secs * 124 / 100) by (nonlinear_arith)
        requires
            75 <= p <= 124,
            r == secs * p / 100,
    ;
    assert(r == scaled_secs(secs, p));
    r
}

/// How long an instance that is not accepted waits before the scheduler
/// removes it: the removal period jittered, between 1350 and 2232 seconds.
pub fn removal_delay() -> (r: u64)
    ensures
        exists|p: u64|
            JITTER_LOW_PERCENT <= p < JITTER_HIGH_PERCENT && r == #[trigger] scaled_secs(
                REMOVE_INSTANCE_AFTER_SECS,
                p,
            ),
        1350 <= r <= 2232,
{
    random_jittered_secs(REMOVE_INSTANCE_AFTER_SECS)
}

/// Whether payment for an instance paid from `paid_from` should be claimed
/// at `now`, after `interval` seconds.
pub fn should_claim_payment(now: u64, paid_from: u64, interval: u64) -> (r: bool)
    ensures
        r == (now > (if paid_from + interval > u64::MAX { u64::MAX as int } else {
            paid_from + interval
        })),
{
    now > paid_from.saturating_add(interval)
}

/// Whether an instance waiting for removal since `since` may be removed at
/// `now`, after `max_delta` seconds.
pub fn removal_due(now: u64, since: u64, max_delta: u64) -> (r: bool)
    ensures
        r == ((if now < since { 0 } else { now - since }) >= max_delta),
{
    !(now.saturating_sub(since) < max_delta)
}

/// Whether an instance may not be removed yet because it was never paid
/// beyond its start (its claims would fail).
pub fn removal_blocked(paid_from: u64, paid_until: u64) -> (r: bool)
    ensures
        r == (paid_until == paid_from),
{
    paid_until == paid_from
}


/// The instances that run or hold volumes here but are not known to be
/// hosted here: they are to be stopped, storage wiped.
pub open spec fn spec_unknown_instances(running: Seq<u64>, volumes: Seq<u64>, known: Seq<u64>) -> Set<
    u64,
> {
    (running.to_set() + volumes.to_set()) - known.to_set()
}

/// Adds `x` to `r` unless it is known or already there.
fn add_unknown(r: &mut Vec<u64>, x: u64, known: &Vec<u64>)
    requires
        old(r)@.no_duplicates(),
    ensures
        final(r)@.no_duplicates(),
        forall|y: u64| #[trigger] final(r)@.contains(y) <==> old(r)@.contains(y) || (y == x
            && !known@.contains(x)),
{
    let mut k: usize = 0;
    while k < known.len()
        invariant
            k <= known@.len(),
            r@ == old(r)@,
            r@.no_duplicates(),
            forall|j: int| 0 <= j < k ==> known@[j] != x,
        decreases known@.len() - k,
    {
        if known[k] == x {
            assert(known@.contains(x));
            return;
        }
        k = k + 1;
    }
    assert(!known@.contains(x));
    let mut k: usize = 0;
    while k < r.len()
        invariant
            k <= r@.len(),
            r@ == old(r)@,
            r@.no_duplicates(),
            !known@.contains(x),
            forall|j: int| 0 <= j < k ==> r@[j] != x,
        decreases r@.len() - k,
    {
        if r[k] == x {
            assert(r@.contains(x));
            return;
        }
        k = k + 1;
    }
    let ghost before = r@;
    r.push(x);
    proof {
        assert forall|a: int, b: int| 0 <= a < b < r@.len() implies r@[a] != r@[b] by {
            if b == r@.len() - 1 {
                assert(before[a] != x);
            } else {
                assert(before[a] != before[b]);
            }
        }
        assert forall|y: u64| #[trigger] r@.contains(y) <==> before.contains(y) || (y == x
            && !known@.contains(x)) by {
            if r@.contains(y) && y != x {
                let a = choose|a: int| 0 <= a < r@.len() && r@[a] == y;
                assert(before[a] == y);
            }
            if y == x {
                assert(r@[r@.len() - 1] == x);
            }
            if before.contains(y) {
                let a = choose|a: int| 0 <= a < before.len() && before[a] == y;
                assert(r@[a] == y);
            }
        }
    }
}

/// The instances to stop as unknown, each once.
pub fn unknown_instances(running: &Vec<u64>, volumes: &Vec<u64>, known: &Vec<u64>) -> (r: Vec<u64>)
    ensures
        r@.to_set() == spec_unknown_instances(running@, volumes@, known@),
        r@.no_duplicates(),
{
    let mut r: Vec<u64> = Vec::new();
    let mut i: usize = 0;
    while i < running.len()
        invariant
            i <= running@.len(),
            r@.no_duplicates(),
            forall|y: u64| #[trigger] r@.contains(y) <==> !known@.contains(y) && exists|j: int|
                0 <= j < i && running@[j] == y,
        decreases running@.len() - i,
    {
        add_unknown(&mut r, running[i], known);
        proof {
            assert forall|y: u64| #[trigger] r@.contains(y) <==> !known@.contains(y) && exists|j: int|
                0 <= j < i + 1 && running@[j] == y by {
                if y == running@[i as int] {
                }
            }
        }
        i = i + 1;
    }
    let mut i: usize = 0;
    while i < volumes.len()
        invariant
            i <= volumes@.len(),
            r@.no_duplicates(),
            forall|y: u64| #[trigger] r@.contains(y) <==> !known@.contains(y) && (running@.contains(y)
                || exists|j: int| 0 <= j < i && volumes@[j] == y),
        decreases volumes@.len() - i,
    {
        add_unknown(&mut r, volumes[i], known);
        proof {
            assert forall|y: u64| #[trigger] r@.contains(y) <==> !known@.contains(y) && (
            running@.contains(y) || exists|j: int| 0 <= j < i + 1 && volumes@[j] == y) by {
                if y == volumes@[i as int] {
                }
            }
        }
        i = i + 1;
    }
    proof {
        let lhs = r@.to_set();
        let rhs = spec_unknown_instances(running@, volumes@, known@);
        assert forall|y: u64| lhs.contains(y) <==> rhs.contains(y) by {
            if r@.contains(y) && !running@.contains(y) {
                let j = choose|j: int| 0 <= j < volumes@.len() && volumes@[j] == y;
                assert(volumes@.contains(y));
            }
            if rhs.contains(y) && !running@.contains(y) {
                assert(volumes@.contains(y));
                let j = choose|j: int| 0 <= j < volumes@.len() && volumes@[j] == y;
                assert(r@.contains(y));
            }
        }
        assert(lhs =~= rhs);
    }
    r
}

/// How many identifiers go into one job.
pub const JOB_CHUNK_SIZE: usize = 16;

/// Identifiers split into consecutive chunks of `size`, the last one
/// possibly shorter: concatenated, they give back the identifiers.
pub open spec fn chunks_of(ids: Seq<u64>, chunks: Seq<Seq<u64>>, size: nat) -> bool {
    &&& chunks.flatten() == ids
    &&& forall|i: int|
        0 <= i < chunks.len() ==> 0 < (#[trigger] chunks[i]).len() <= size && (i < chunks.len()
            - 1 ==> chunks[i].len() == size)
}

/// Splits identifiers into jobs of at most `size` each, in order.
pub fn chunk_ids(ids: &Vec<u64>, size: usize) -> (r: Vec<Vec<u64>>)
    requires
        size > 0,
    ensures
        chunks_of(ids@, r@.map_values(|c: Vec<u64>| c@), size as nat),
{
    let mut r: Vec<Vec<u64>> = Vec::new();
    let mut i: usize = 0;
    while i < ids.len()
        invariant
            i <= ids@.len(),
            size > 0,
            r@.map_values(|c: Vec<u64>| c@).flatten() == ids@.subrange(0, i as int),
            forall|k: int|
                0 <= k < r@.len() ==> 0 < (#[trigger] r@[k])@.len() <= size && (k < r@.len() - 1
                    ==> r@[k]@.len() == size),
            i < ids@.len() ==> forall|k: int| 0 <= k < r@.len() ==> (#[trigger] r@[k])@.len() == size,
        decreases ids@.len() - i,
    {
        let end = if ids.len() - i > size {
            i + size
        } else {
            ids.len()
        };
        let mut chunk: Vec<u64> = Vec::new();
        let mut j = i;
        while j < end
            invariant
                i <= j <= end <= ids@.len(),
                chunk@ == ids@.subrange(i as int, j as int),
            decreases end - j,
        {
            chunk.push(ids[j]);
            j = j + 1;
        }
        let ghost before = r@.map_values(|c: Vec<u64>| c@);
        r.push(chunk);
        proof {
            let after = r@.map_values(|c: Vec<u64>| c@);
            assert(after =~= before.push(ids@.subrange(i as int, end as int)));
            before.lemma_flatten_push(ids@.subrange(i as int, end as int));
            assert(ids@.subrange(0, i as int) + ids@.subrange(i as int, end as int) =~= ids@.subrange(
                0,
                end as int,
            ));
        }
        i = end;
    }
    proof {
        assert(ids@.subrange(0, ids@.len() as int) =~= ids@);
    }
    r
}

/// An instance as the market lists it, as far as discovery reads it.
#[derive(Debug, Clone, Copy)]
pub struct MarketInstance {
    pub id: u64,
    pub status: InstanceStatus,
    /// Whether it is accepted for this node.
    pub hosted_here: bool,
    pub paid_until: u64,
    pub updated_at: u64,
}

/// What a discovery pass sorts the listed instances into.
#[derive(Debug, Clone)]
pub struct DiscoveryLists {
    /// Instances to consider removing, each with the time counted from.
    pub maybe_remove: Vec<(u64, u64)>,
    /// Unpaid instances that run here and are stopped, storage wiped.
    pub stop_unpaid: Vec<u64>,
    /// Paid instances hosted here, to bring to their desired state.
    pub managed: Vec<u64>,
    /// Instances hosted here, paid or not (known to the market as ours).
    pub known: Vec<u64>,
}

/// The mathematical view of discovery's lists.
pub struct ListsView {
    pub maybe_remove: Seq<(u64, u64)>,
    pub stop_unpaid: Seq<u64>,
    pub managed: Seq<u64>,
    pub known: Seq<u64>,
}

impl View for DiscoveryLists {
    type V = ListsView;

    open spec fn view(&self) -> ListsView {
        ListsView {
            maybe_remove: self.maybe_remove@,
            stop_unpaid: self.stop_unpaid@,
            managed: self.managed@,
            known: self.known@,
        }
    }
}

/// The lists after one more listed instance `m`, decided at `now` with the
/// instances running here `running`.
pub open spec fn discover_step(l: ListsView, m: MarketInstance, now: u64, running: Seq<u64>) -> ListsView {
    match spec_discover_decision(
        m.status,
        m.hosted_here,
        m.paid_until,
        m.updated_at,
        now,
        running.contains(m.id),
    ) {
        DiscoverDecision::Skip => l,
        DiscoverDecision::ScheduleRemoval { since } => ListsView {
            maybe_remove: l.maybe_remove.push((m.id, since)),
            ..l
        },
        DiscoverDecision::Unpaid { stop, since } => ListsView {
            maybe_remove: l.maybe_remove.push((m.id, since)),
            stop_unpaid: if stop {
                l.stop_unpaid.push(m.id)
            } else {
                l.stop_unpaid
            },
            known: l.known.push(m.id),
            ..l
        },
        DiscoverDecision::Manage => ListsView {
            managed: l.managed.push(m.id),
            known: l.known.push(m.id),
            ..l
        },
    }
}

/// The lists discovery builds from the listed instances, in their order.
pub open spec fn discover_lists(ms: Seq<MarketInstance>, now: u64, running: Seq<u64>) -> ListsView
    decreases ms.len(),
{
    if ms.len() == 0 {
        ListsView {
            maybe_remove: Seq::empty(),
            stop_unpaid: Seq::empty(),
            managed: Seq::empty(),
            known: Seq::empty(),
        }
    } else {
        discover_step(discover_lists(ms.drop_last(), now, running), ms.last(), now, running)
    }
}

/// Whether `v` holds `x`.
fn contains_id(v: &Vec<u64>, x: u64) -> (r: bool)
    ensures
        r == v@.contains(x),
{
    let mut i: usize = 0;
    while i < v.len()
        invariant
            i <= v@.len(),
            forall|j: int| 0 <= j < i ==> v@[j] != x,
        decreases v@.len() - i,
    {
        if v[i] == x {
            assert(v@[i as int] == x);
            return true;
        }
        i = i + 1;
    }
    false
}

/// Sorts the instances the market lists at `now`, with the bundles running
/// here `running`: created ones are skipped, cancelled ones considered for
/// removal from their last update, and those accepted for this node are
/// known; of these, unpaid ones are considered for removal from the end of
/// their payment and stopped if they run, and paid ones are managed.
pub fn discover_pass(instances: &Vec<MarketInstance>, now: u64, running: &Vec<u64>) -> (r:
    DiscoveryLists)
    ensures
        r@ == discover_lists(instances@, now, running@),
{
    let mut r = DiscoveryLists {
        maybe_remove: Vec::new(),
        stop_unpaid: Vec::new(),
        managed: Vec::new(),
        known: Vec::new(),
    };
    let mut i: usize = 0;
    while i < instances.len()
        invariant
            i <= instances@.len(),
            r@ == discover_lists(instances@.subrange(0, i as int), now, running@),
        decreases instances@.len() - i,
    {
        let m = instances[i];
        let ghost before = r@;
        let is_running = contains_id(running, m.id);
        match discover_decision(m.status, m.hosted_here, m.paid_until, m.updated_at, now, is_running) {
            DiscoverDecision::Skip => {},
            DiscoverDecision::ScheduleRemoval { since } => {
                r.maybe_remove.push((m.id, since));
            },
            DiscoverDecision::Unpaid { stop, since } => {
                r.maybe_remove.push((m.id, since));
                if stop {
                    r.stop_unpaid.push(m.id);
                }
                r.known.push(m.id);
            },
            DiscoverDecision::Manage => {
                r.managed.push(m.id);
                r.known.push(m.id);
            },
        }
        proof {
            let s = instances@.subrange(0, i + 1);
            assert(s.drop_last() =~= instances@.subrange(0, i as int));
            assert(s.last() == m);
            assert(r@ == discover_step(before, m, now, running@));
        }
        i = i + 1;
    }
    assert(instances@.subrange(0, instances@.len() as int) =~= instances@);
    r
}

/// Every instance discovery knows as hosted here is either managed, or
/// unpaid and considered for removal.
pub proof fn lemma_known_are_managed_or_removed(ms: Seq<MarketInstance>, now: u64, running: Seq<u64>)
    ensures
        forall|x: u64|
            #[trigger] discover_lists(ms, now, running).known.contains(x) ==> discover_lists(
                ms,
                now,
                running,
            ).managed.contains(x) || exists|t: u64|
                #[trigger] discover_lists(ms, now, running).maybe_remove.contains((x, t)),
    decreases ms.len(),
{
    if ms.len() > 0 {
        lemma_known_are_managed_or_removed(ms.drop_last(), now, running);
        let l = discover_lists(ms.drop_last(), now, running);
        let n = discover_lists(ms, now, running);
        assert forall|x: u64| #[trigger] n.known.contains(x) implies n.managed.contains(x)
            || exists|t: u64| #[trigger] n.maybe_remove.contains((x, t)) by {
            if l.known.contains(x) {
                if l.managed.contains(x) {
                    let k = choose|k: int| 0 <= k < l.managed.len() && l.managed[k] == x;
                    assert(n.managed.subrange(0, l.managed.len() as int) == l.managed || n.managed
                        == l.managed);
                    assert(n.managed[k] == x);
                } else {
                    let t = choose|t: u64| #[trigger] l.maybe_remove.contains((x, t));
                    let k = choose|k: int| 0 <= k < l.maybe_remove.len() && l.maybe_remove[k] == (x, t);
                    assert(n.maybe_remove[k] == (x, t));
                    assert(n.maybe_remove.contains((x, t)));
                }
            } else {
                let m = ms.last();
                if n.managed.len() > l.managed.len() {
                    assert(n.managed[n.managed.len() - 1] == x);
                } else {
                    let t = n.maybe_remove[n.maybe_remove.len() - 1].1;
                    assert(n.maybe_remove[n.maybe_remove.len() - 1] == (x, t));
                    assert(n.maybe_remove.contains((x, t)));
                }
            }
        }
    }
}

/// A managed instance, as the rest of discovery reads it: the deployment
/// hash label of its running bundle (`None` when it runs nothing), the hash
/// of its desired deployment (`None` when nothing should run), what its
/// commands asked, and since when it is paid for.
#[derive(Debug, Clone)]
pub struct ManagedInstance {
    pub id: u64,
    pub running_hash: Option<String>,
    pub desired_hash: Option<String>,
    pub force_restart: bool,
    pub wipe_storage: bool,
    pub paid_from: u64,
}

/// The mathematical view of a managed instance.
pub struct ManagedView {
    pub id: u64,
    pub running_hash: Option<Seq<char>>,
    pub desired_hash: Option<Seq<char>>,
    pub force_restart: bool,
    pub wipe_storage: bool,
    pub paid_from: u64,
}

impl View for ManagedInstance {
    type V = ManagedView;

    open spec fn view(&self) -> ManagedView {
        ManagedView {
            id: self.id,
            running_hash: match self.running_hash {
                Some(h) => Some(h@),
                None => None,
            },
            desired_hash: match self.desired_hash {
                Some(h) => Some(h@),
                None => None,
            },
            force_restart: self.force_restart,
            wipe_storage: self.wipe_storage,
            paid_from: self.paid_from,
        }
    }
}

/// The views of managed instances.
pub open spec fn managed_views(ms: Seq<ManagedInstance>) -> Seq<ManagedView> {
    ms.map_values(|m: ManagedInstance| m@)
}

/// What discovery queues for the managed instances.
#[derive(Debug, Clone)]
pub struct ManageLists {
    /// Instances to (re)start, with whether to wipe their storage.
    pub start: Vec<(u64, bool)>,
    /// Instances to stop, with whether to wipe their storage.
    pub stop: Vec<(u64, bool)>,
    /// Instances to claim payment for.
    pub claim_payment: Vec<u64>,
}

/// The mathematical view of the queued lists.
pub struct ManageListsView {
    pub start: Seq<(u64, bool)>,
    pub stop: Seq<(u64, bool)>,
    pub claim_payment: Seq<u64>,
}

impl View for ManageLists {
    type V = ManageListsView;

    open spec fn view(&self) -> ManageListsView {
        ManageListsView {
            start: self.start@,
            stop: self.stop@,
            claim_payment: self.claim_payment@,
        }
    }
}

/// The lists after one more managed instance `m`, whose payment interval
/// is `interval` seconds.
pub open spec fn manage_step(l: ManageListsView, m: ManagedView, now: u64, interval: u64) -> ManageListsView {
    let claim = now > (if m.paid_from + interval > u64::MAX {
        u64::MAX as int
    } else {
        m.paid_from + interval
    });
    let l1 = ManageListsView {
        claim_payment: if claim {
            l.claim_payment.push(m.id)
        } else {
            l.claim_payment
        },
        ..l
    };
    match spec_instance_action(m.running_hash, m.desired_hash, m.force_restart, m.wipe_storage) {
        InstanceAction::Nothing => l1,
        InstanceAction::Start { wipe_storage } => ManageListsView {
            start: l1.start.push((m.id, wipe_storage)),
            ..l1
        },
        InstanceAction::Stop { wipe_storage } => ManageListsView {
            stop: l1.stop.push((m.id, wipe_storage)),
            ..l1
        },
    }
}

/// The lists queued for the managed instances `ms`, in their order, the
/// `k`-th with the payment interval `base * ps[k] / 100`.
pub open spec fn manage_lists(ms: Seq<ManagedView>, now: u64, base: u64, ps: Seq<u64>) -> ManageListsView
    decreases ms.len(),
{
    if ms.len() == 0 {
        ManageListsView { start: Seq::empty(), stop: Seq::empty(), claim_payment: Seq::empty() }
    } else {
        manage_step(
            manage_lists(ms.drop_last(), now, base, ps.drop_last()),
            ms.last(),
            now,
            scaled_secs(base, ps.last()) as u64,
        )
    }
}

/// Whether every percentage of `ps` is a jitter percentage.
pub open spec fn jitter_percentages(ps: Seq<u64>) -> bool {
    forall|k: int| 0 <= k < ps.len() ==> JITTER_LOW_PERCENT <= #[trigger] ps[k] < JITTER_HIGH_PERCENT
}

/// Queues the work for the managed instances at `now`: each is (re)started
/// or stopped as its running and desired deployments ask, and payment is
/// claimed for it once `now` is past the start of its payment plus the
/// claim interval `base`, jittered anew for each instance.
pub fn manage_pass(instances: &Vec<ManagedInstance>, now: u64, base: u64) -> (r: ManageLists)
    requires
        base * 124 <= u64::MAX,
    ensures
        exists|ps: Seq<u64>|
            ps.len() == instances@.len() && jitter_percentages(ps) && r@ == #[trigger] manage_lists(
                managed_views(instances@),
                now,
                base,
                ps,
            ),
{
    let ghost views = managed_views(instances@);
    let mut r = ManageLists { start: Vec::new(), stop: Vec::new(), claim_payment: Vec::new() };
    let ghost mut ps: Seq<u64> = Seq::empty();
    let mut i: usize = 0;
    while i < instances.len()
        invariant
            i <= instances@.len(),
            base * 124 <= u64::MAX,
            views == managed_views(instances@),
            ps.len() == i,
            jitter_percentages(ps),
            r@ == manage_lists(views.subrange(0, i as int), now, base, ps),
        decreases instances@.len() - i,
    {
        let m = &instances[i];
        let ghost before = r@;
        let interval = random_jittered_secs(base);
        let ghost p = choose|p: u64|
            JITTER_LOW_PERCENT <= p < JITTER_HIGH_PERCENT && interval == #[trigger] scaled_secs(base, p);
        if should_claim_payment(now, m.paid_from, interval) {
            r.claim_payment.push(m.id);
        }
        let action = instance_action(
            match &m.running_hash {
                Some(h) => Some(h.as_str()),
                None => None,
            },
            match &m.desired_hash {
                Some(h) => Some(h.as_str()),
                None => None,
            },
            m.force_restart,
            m.wipe_storage,
        );
        match action {
            InstanceAction::Nothing => {},
            InstanceAction::Start { wipe_storage } => {
                r.start.push((m.id, wipe_storage));
            },
            InstanceAction::Stop { wipe_storage } => {
                r.stop.push((m.id, wipe_storage));
            },
        }
        proof {
            let s = views.subrange(0, i + 1);
            let ps2 = ps.push(p);
            assert(s.drop_last() =~= views.subrange(0, i as int));
            assert(ps2.drop_last() =~= ps);
            assert(s.last() == m@);
            assert(r@ == manage_step(before, m@, now, interval));
            assert(manage_lists(s, now, base, ps2) == manage_step(
                manage_lists(views.subrange(0, i as int), now, base, ps),
                m@,
                now,
                scaled_secs(base, p) as u64,
            ));
            ps = ps2;
        }
        i = i + 1;
    }
    assert(views.subrange(0, instances@.len() as int) =~= views);
    r
}

} // verus!
