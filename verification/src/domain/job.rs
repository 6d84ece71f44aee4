//! The life of a job.
use vstd::prelude::*;

use crate::domain::types::{
    AttemptId, CatalogGeneration, ConfigGeneration, GenerationId, JobId, PlanId, UnixTimestamp,
};
use crate::numerals;

verus! {

/// Where a job stands.
#[derive(Debug, Clone, PartialEq, Eq)]
pub enum JobState {
    Pending,
    Queued,
    Admitted,
    Preparing,
    Scanning,
    Planning,
    AwaitingAuthorization,
    Authorized,
    WaitingResources,
    Executing,
    Verifying,
    Reconciling,
    Completed,
    Failed { reason: String },
    Aborted { reason: String },
    Cancelled { reason: String },
    TimedOut { reason: String },
    RecoveryRequired { reason: String },
    Stale { reason: String },
}

impl JobState {
    /// The job is over.
    pub open spec fn is_over(self) -> bool {
        ||| self is Completed
        ||| self is Failed
        ||| self is Aborted
        ||| self is Cancelled
        ||| self is TimedOut
        ||| self is RecoveryRequired
        ||| self is Stale
    }

    /// A state that every job that is not over may enter.
    pub open spec fn is_always_open(self) -> bool {
        self is Cancelled || self is TimedOut || self is Stale || self is RecoveryRequired
    }

    /// `next` may follow this state.
    pub open spec fn may_become(self, next: JobState) -> bool {
        !self.is_over() && (next.is_always_open() || next is Failed || match self {
            JobState::Pending => next is Queued || next is Admitted || next is Aborted,
            JobState::Queued => next is Admitted || next is Aborted,
            JobState::Admitted => next is Preparing || next is Scanning || next is Aborted,
            JobState::Preparing => next is Scanning,
            JobState::Scanning => next is Planning || next is Aborted,
            JobState::Planning => next is AwaitingAuthorization || next is Authorized
                || next is Completed || next is Aborted,
            JobState::AwaitingAuthorization => next is Authorized,
            JobState::Authorized => next is WaitingResources || next is Executing
                || next is Aborted,
            JobState::WaitingResources => next is Executing,
            JobState::Executing => next is Verifying || next is Reconciling || next is Aborted,
            JobState::Verifying => next is Completed || next is Reconciling || next is Aborted,
            JobState::Reconciling => next is Completed,
            _ => false,
        })
    }

    pub fn is_terminal(&self) -> (r: bool)
        ensures
            r == self.is_over(),
    {
        matches!(
            self,
            JobState::Completed
                | JobState::Failed { .. }
                | JobState::Aborted { .. }
                | JobState::Cancelled { .. }
                | JobState::TimedOut { .. }
                | JobState::RecoveryRequired { .. }
                | JobState::Stale { .. }
        )
    }

    pub fn can_transition_to(&self, next: &JobState) -> (r: bool)
        ensures
            r == self.may_become(*next),
    {
        match (self, next) {
            (JobState::Pending, JobState::Queued) => true,
            (JobState::Pending, JobState::Admitted) => true,
            (JobState::Pending, JobState::Failed { .. }) => true,
            (JobState::Pending, JobState::Aborted { .. }) => true,
            (JobState::Pending, JobState::Cancelled { .. }) => true,
            (JobState::Queued, JobState::Admitted) => true,
            (JobState::Queued, JobState::Failed { .. }) => true,
            (JobState::Queued, JobState::Aborted { .. }) => true,
            (JobState::Admitted, JobState::Preparing) => true,
            (JobState::Admitted, JobState::Scanning) => true,
            (JobState::Admitted, JobState::Failed { .. }) => true,
            (JobState::Admitted, JobState::Aborted { .. }) => true,
            (JobState::Preparing, JobState::Scanning) => true,
            (JobState::Preparing, JobState::Failed { .. }) => true,
            (JobState::Scanning, JobState::Planning) => true,
            (JobState::Scanning, JobState::Failed { .. }) => true,
            (JobState::Scanning, JobState::Aborted { .. }) => true,
            (JobState::Planning, JobState::AwaitingAuthorization) => true,
            (JobState::Planning, JobState::Authorized) => true,
            (JobState::Planning, JobState::Completed) => true,
            (JobState::Planning, JobState::Failed { .. }) => true,
            (JobState::Planning, JobState::Aborted { .. }) => true,
            (JobState::AwaitingAuthorization, JobState::Authorized) => true,
            (JobState::AwaitingAuthorization, JobState::Failed { .. }) => true,
            (JobState::Authorized, JobState::WaitingResources) => true,
            (JobState::Authorized, JobState::Executing) => true,
            (JobState::Authorized, JobState::Failed { .. }) => true,
            (JobState::Authorized, JobState::Aborted { .. }) => true,
            (JobState::WaitingResources, JobState::Executing) => true,
            (JobState::WaitingResources, JobState::Failed { .. }) => true,
            (JobState::Executing, JobState::Verifying) => true,
            (JobState::Executing, JobState::Reconciling) => true,
            (JobState::Executing, JobState::Failed { .. }) => true,
            (JobState::Executing, JobState::Aborted { .. }) => true,
            (JobState::Verifying, JobState::Completed) => true,
            (JobState::Verifying, JobState::Reconciling) => true,
            (JobState::Verifying, JobState::Failed { .. }) => true,
            (JobState::Verifying, JobState::Aborted { .. }) => true,
            (JobState::Verifying, JobState::RecoveryRequired { .. }) => true,
            (JobState::Reconciling, JobState::Completed) => true,
            (JobState::Reconciling, JobState::Failed { .. }) => true,
            (JobState::Reconciling, JobState::RecoveryRequired { .. }) => true,
            (_, JobState::Cancelled { .. }) => !self.is_terminal(),
            (_, JobState::TimedOut { .. }) => !self.is_terminal(),
            (_, JobState::Stale { .. }) => !self.is_terminal(),
            (_, JobState::RecoveryRequired { .. }) => !self.is_terminal(),
            _ => false,
        }
    }

    /// The text shown for it.
    pub open spec fn shown(self) -> Seq<char> {
        match self {
            JobState::Pending => "Pending"@,
            JobState::Queued => "Queued"@,
            JobState::Admitted => "Admitted"@,
            JobState::Preparing => "Preparing"@,
            JobState::Scanning => "Scanning"@,
            JobState::Planning => "Planning"@,
            JobState::AwaitingAuthorization => "AwaitingAuthorization"@,
            JobState::Authorized => "Authorized"@,
            JobState::WaitingResources => "WaitingResources"@,
            JobState::Executing => "Executing"@,
            JobState::Verifying => "Verifying"@,
            JobState::Reconciling => "Reconciling"@,
            JobState::Completed => "Completed"@,
            JobState::Failed { reason } => "Failed("@ + reason@ + ")"@,
            JobState::Aborted { reason } => "Aborted("@ + reason@ + ")"@,
            JobState::Cancelled { reason } => "Cancelled("@ + reason@ + ")"@,
            JobState::TimedOut { reason } => "TimedOut("@ + reason@ + ")"@,
            JobState::RecoveryRequired { reason } => "RecoveryRequired("@ + reason@ + ")"@,
            JobState::Stale { reason } => "Stale("@ + reason@ + ")"@,
        }
    }

    /// The text shown for it.
    pub fn to_text(&self) -> (r: String)
        ensures
            r@ == self.shown(),
    {
        match self {
            JobState::Pending => "Pending".to_owned(),
            JobState::Queued => "Queued".to_owned(),
            JobState::Admitted => "Admitted".to_owned(),
            JobState::Preparing => "Preparing".to_owned(),
            JobState::Scanning => "Scanning".to_owned(),
            JobState::Planning => "Planning".to_owned(),
            JobState::AwaitingAuthorization => "AwaitingAuthorization".to_owned(),
            JobState::Authorized => "Authorized".to_owned(),
            JobState::WaitingResources => "WaitingResources".to_owned(),
            JobState::Executing => "Executing".to_owned(),
            JobState::Verifying => "Verifying".to_owned(),
            JobState::Reconciling => "Reconciling".to_owned(),
            JobState::Completed => "Completed".to_owned(),
            JobState::Failed { reason } => with_reason("Failed(", reason.as_str()),
            JobState::Aborted { reason } => with_reason("Aborted(", reason.as_str()),
            JobState::Cancelled { reason } => with_reason("Cancelled(", reason.as_str()),
            JobState::TimedOut { reason } => with_reason("TimedOut(", reason.as_str()),
            JobState::RecoveryRequired { reason } => with_reason(
                "RecoveryRequired(",
                reason.as_str(),
            ),
            JobState::Stale { reason } => with_reason("Stale(", reason.as_str()),
        }
    }
}

fn with_reason(name: &str, reason: &str) -> (r: String)
    ensures
        r@ == name@ + reason@ + ")"@,
{
    let mut r = name.to_owned();
    r.append(reason);
    r.append(")");
    r
}

/// One attempt at a job.
#[derive(Debug, Clone, PartialEq, Eq)]
pub struct JobAttempt {
    pub attempt_id: AttemptId,
    pub job_id: JobId,
    pub attempt_number: u32,
    pub started_at: UnixTimestamp,
    pub finished_at: Option<UnixTimestamp>,
    pub state: JobState,
    pub state_version: u64,
    pub catalog_generation: CatalogGeneration,
    pub config_generation: ConfigGeneration,
    pub plan_id: Option<PlanId>,
}

impl JobAttempt {
    /// An attempt that has just begun.
    pub open spec fn fresh(
        attempt_id: AttemptId,
        job_id: JobId,
        attempt_number: u32,
        catalog_generation: CatalogGeneration,
        config_generation: ConfigGeneration,
        started_at: UnixTimestamp,
    ) -> JobAttempt {
        JobAttempt {
            attempt_id,
            job_id,
            attempt_number,
            started_at,
            finished_at: None,
            state: JobState::Pending,
            state_version: 1,
            catalog_generation,
            config_generation,
            plan_id: None,
        }
    }

    /// An attempt that begins now, under the first generations.
    pub fn new(attempt_id: AttemptId, job_id: JobId, attempt_number: u32) -> (r: Self)
        ensures
            r == JobAttempt::fresh(
                attempt_id,
                job_id,
                attempt_number,
                GenerationId(1),
                GenerationId(1),
                r.started_at,
            ),
    {
        Self::new_with_generations(
            attempt_id,
            job_id,
            attempt_number,
            GenerationId(1),
            GenerationId(1),
        )
    }

    /// An attempt that begins now, under the given generations.
    pub fn new_with_generations(
        attempt_id: AttemptId,
        job_id: JobId,
        attempt_number: u32,
        catalog_generation: CatalogGeneration,
        config_generation: ConfigGeneration,
    ) -> (r: Self)
        ensures
            r == JobAttempt::fresh(
                attempt_id,
                job_id,
                attempt_number,
                catalog_generation,
                config_generation,
                r.started_at,
            ),
    {
        JobAttempt {
            attempt_id,
            job_id,
            attempt_number,
            started_at: UnixTimestamp::now(),
            finished_at: None,
            state: JobState::Pending,
            state_version: 1,
            catalog_generation,
            config_generation,
            plan_id: None,
        }
    }

    /// The attempt is asked to enter `next` by someone who knows its version, and
    /// it may.
    pub open spec fn accepts(self, next: JobState, expected_version: u64) -> bool {
        self.state_version == expected_version && self.state.may_become(next)
    }

    /// The attempt after it entered `next` at `now`.
    pub open spec fn entered(self, next: JobState, now: UnixTimestamp) -> JobAttempt {
        JobAttempt {
            state: next,
            state_version: (self.state_version + 1) as u64,
            finished_at: if next.is_over() {
                Some(now)
            } else {
                self.finished_at
            },
            ..self
        }
    }

    /// Why the attempt does not enter `next`.
    pub open spec fn refusal(self, next: JobState, expected_version: u64) -> Seq<char> {
        if self.state_version != expected_version {
            "CAS failed for attempt "@ + self.attempt_id.shown() + ": expected version "@
                + numerals::decimal(expected_version as nat) + ", actual "@ + numerals::decimal(
                self.state_version as nat,
            )
        } else {
            "Illegal state transition from '"@ + self.state.shown() + "' to '"@ + next.shown()
                + "' for attempt "@ + self.attempt_id.shown()
        }
    }

    /// Enters `next` now, where that is a legal step.
    pub fn transition_to(&mut self, next: JobState) -> (r: Result<(), String>)
        requires
            old(self).state.may_become(next) ==> old(self).state_version < u64::MAX,
        ensures
            r is Ok <==> old(self).state.may_become(next),
            r is Ok ==> exists|now: UnixTimestamp| *final(self) == #[trigger] old(self).entered(
                next,
                now,
            ),
            r matches Err(e) ==> *final(self) == *old(self) && e@ == old(self).refusal(
                next,
                old(self).state_version,
            ),
    {
        let version: u64 = self.state_version;
        self.transition_with_cas(next, version)
    }

    /// Enters `next` now, where that is a legal step and `expected_version` is
    /// the attempt's version.
    pub fn transition_with_cas(&mut self, next: JobState, expected_version: u64) -> (r: Result<
        (),
        String,
    >)
        requires
            old(self).accepts(next, expected_version) ==> old(self).state_version < u64::MAX,
        ensures
            r is Ok <==> old(self).accepts(next, expected_version),
            r is Ok ==> exists|now: UnixTimestamp| *final(self) == #[trigger] old(self).entered(
                next,
                now,
            ),
            r matches Err(e) ==> *final(self) == *old(self) && e@ == old(self).refusal(
                next,
                expected_version,
            ),
    {
        self.transition_at(next, expected_version, UnixTimestamp::now())
    }

    /// Enters `next` at `now`, where that is a legal step and `expected_version`
    /// is the attempt's version.
    pub fn transition_at(
        &mut self,
        next: JobState,
        expected_version: u64,
        now: UnixTimestamp,
    ) -> (r: Result<(), String>)
        requires
            old(self).accepts(next, expected_version) ==> old(self).state_version < u64::MAX,
        ensures
            r is Ok <==> old(self).accepts(next, expected_version),
            r is Ok ==> *final(self) == old(self).entered(next, now),
            r matches Err(e) ==> *final(self) == *old(self) && e@ == old(self).refusal(
                next,
                expected_version,
            ),
    {
        if self.state_version != expected_version {
            let mut m = "CAS failed for attempt ".to_owned();
            m.append(self.attempt_id.to_text().as_str());
            m.append(": expected version ");
            m.append(numerals::decimal_text(expected_version).as_str());
            m.append(", actual ");
            m.append(numerals::decimal_text(self.state_version).as_str());
            return Err(m);
        }
        if self.state.can_transition_to(&next) {
            if next.is_terminal() {
                self.finished_at = Some(now);
            }
            self.state = next;
            self.state_version = self.state_version + 1;
            Ok(())
        } else {
            let mut m = "Illegal state transition from '".to_owned();
            m.append(self.state.to_text().as_str());
            m.append("' to '");
            m.append(next.to_text().as_str());
            m.append("' for attempt ");
            m.append(self.attempt_id.to_text().as_str());
            Err(m)
        }
    }
}

/// A job that is over stays as it is.
pub proof fn law_over_is_final(state: JobState, next: JobState)
    requires
        state.is_over(),
    ensures
        !state.may_become(next),
{
}

/// A job that is not over can fail, be cancelled, time out, go stale or be handed
/// to recovery.
pub proof fn law_live_job_can_end(state: JobState, next: JobState)
    requires
        !state.is_over(),
        next is Failed || next is Cancelled || next is TimedOut || next is Stale
            || next is RecoveryRequired,
    ensures
        state.may_become(next),
{
}

/// Once one caller has moved an attempt, another who still holds the old version
/// is refused whatever it asks for.
pub proof fn law_old_version_is_refused(
    attempt: JobAttempt,
    next: JobState,
    now: UnixTimestamp,
    other: JobState,
)
    requires
        attempt.accepts(next, attempt.state_version),
        attempt.state_version < u64::MAX,
    ensures
        !attempt.entered(next, now).accepts(other, attempt.state_version),
        attempt.entered(next, now).state_version == attempt.state_version + 1,
{
}

/// An attempt has an end time after it entered a state in which it is over, and
/// keeps having none before.
pub proof fn law_end_time_marks_the_end(attempt: JobAttempt, next: JobState, now: UnixTimestamp)
    requires
        attempt.finished_at is Some <==> attempt.state.is_over(),
        attempt.state.may_become(next),
    ensures
        attempt.entered(next, now).finished_at is Some <==> attempt.entered(
            next,
            now,
        ).state.is_over(),
{
}

/// The steps that lead a job forward, one state to the next.
pub open spec fn leads_forward(from: JobState, to: JobState) -> bool {
    ||| from is Pending && (to is Queued || to is Admitted)
    ||| from is Queued && to is Admitted
    ||| from is Admitted && (to is Preparing || to is Scanning)
    ||| from is Preparing && to is Scanning
    ||| from is Scanning && to is Planning
    ||| from is Planning && (to is AwaitingAuthorization || to is Authorized || to is Completed)
    ||| from is AwaitingAuthorization && to is Authorized
    ||| from is Authorized && (to is WaitingResources || to is Executing)
    ||| from is WaitingResources && to is Executing
    ||| from is Executing && (to is Verifying || to is Reconciling)
    ||| from is Verifying && (to is Completed || to is Reconciling)
    ||| from is Reconciling && to is Completed
}

/// A job goes forward by its steps alone. As long as it is not over it may fail, be
/// cancelled, time out, go stale or be handed to recovery; it may be aborted unless it is
/// preparing, waiting or reconciling. Once it is over it stays as it is, and so it is
/// over exactly where no step leads on.
pub proof fn law_job_goes_forward(from: &JobState, to: &JobState, may: bool, over: bool)
    requires
        call_ensures(JobState::can_transition_to, (from, to), may),
        call_ensures(JobState::is_terminal, (from,), over),
    ensures
        over <==> *from is Completed || *from is Failed || *from is Aborted || *from is Cancelled
            || *from is TimedOut || *from is RecoveryRequired || *from is Stale,
        may <==> !over && {
            ||| leads_forward(*from, *to)
            ||| *to is Failed || *to is Cancelled || *to is TimedOut || *to is Stale
                || *to is RecoveryRequired
            ||| *to is Aborted && !(*from is Preparing) && !(*from is AwaitingAuthorization) && !(
            *from is WaitingResources) && !(*from is Reconciling)
        },
{
}

/// An attempt enters a state exactly where that is a step of its job and whoever asks
/// knows its version; then its version is one higher, and it has an end exactly from the
/// moment on at which it is over. Nothing else of it changes, and nothing at all where it
/// is refused.
pub proof fn law_attempt_moves_by_one_version(
    attempt: &mut JobAttempt,
    next: JobState,
    version: u64,
    now: UnixTimestamp,
    may: bool,
    r: Result<(), String>,
)
    requires
        call_ensures(JobAttempt::transition_at, (attempt, next, version, now), r),
        call_ensures(JobState::can_transition_to, (&old(attempt).state, &next), may),
        old(attempt).state_version < u64::MAX,
    ensures
        r is Ok <==> may && version == old(attempt).state_version,
        r is Ok ==> {
            &&& final(attempt).state == next
            &&& final(attempt).state_version == old(attempt).state_version + 1
            &&& final(attempt).finished_at == if next is Completed || next is Failed
                || next is Aborted || next is Cancelled || next is TimedOut
                || next is RecoveryRequired || next is Stale {
                Some(now)
            } else {
                old(attempt).finished_at
            }
            &&& final(attempt).attempt_id == old(attempt).attempt_id
            &&& final(attempt).job_id == old(attempt).job_id
            &&& final(attempt).attempt_number == old(attempt).attempt_number
            &&& final(attempt).started_at == old(attempt).started_at
            &&& final(attempt).catalog_generation == old(attempt).catalog_generation
            &&& final(attempt).config_generation == old(attempt).config_generation
            &&& final(attempt).plan_id == old(attempt).plan_id
        },
        r is Err ==> *final(attempt) == *old(attempt),
{
}

/// The ways of moving an attempt that read the clock decide as the one that is told the
/// time; the one without a version takes that of the attempt.
pub proof fn law_moves_agree_whatever_the_time(
    told: &mut JobAttempt,
    read: &mut JobAttempt,
    plain: &mut JobAttempt,
    next: JobState,
    version: u64,
    now: UnixTimestamp,
    a: Result<(), String>,
    b: Result<(), String>,
    c: Result<(), String>,
)
    requires
        call_ensures(JobAttempt::transition_at, (told, next, version, now), a),
        call_ensures(JobAttempt::transition_with_cas, (read, next, version), b),
        call_ensures(JobAttempt::transition_to, (plain, next), c),
        *old(told) == *old(read),
        *old(told) == *old(plain),
    ensures
        a is Ok <==> b is Ok,
        c is Ok <==> old(told).state.may_become(next),
        b is Ok ==> final(read).state == next && final(read).state_version == final(told).state_version && final(read).job_id == old(read).job_id,
        c is Ok ==> final(plain).state == next && (old(plain).state_version < u64::MAX ==> final(plain).state_version == old(plain).state_version + 1),
        b is Err ==> *final(read) == *old(read),
        c is Err ==> *final(plain) == *old(plain),
{
}

/// An attempt begins pending, at its first version, under the generations given, with no
/// end and no plan.
pub proof fn law_attempt_begins_pending(
    attempt_id: AttemptId,
    job_id: JobId,
    number: u32,
    catalog: CatalogGeneration,
    config: ConfigGeneration,
    given: JobAttempt,
    plain: JobAttempt,
)
    requires
        call_ensures(
            JobAttempt::new_with_generations,
            (attempt_id, job_id, number, catalog, config),
            given,
        ),
        call_ensures(JobAttempt::new, (attempt_id, job_id, number), plain),
    ensures
        given.attempt_id == attempt_id && plain.attempt_id == attempt_id,
        given.job_id == job_id && plain.job_id == job_id,
        given.attempt_number == number && plain.attempt_number == number,
        given.state is Pending && plain.state is Pending,
        given.state_version == 1 && plain.state_version == 1,
        given.finished_at is None && plain.finished_at is None,
        given.plan_id is None && plain.plan_id is None,
        given.catalog_generation == catalog && given.config_generation == config,
        plain.catalog_generation.0 == 1 && plain.config_generation.0 == 1,
{
}

/// Every state is shown by its name, and one with a reason with it.
pub proof fn law_states_are_shown(s: &JobState, r: String)
    requires
        call_ensures(JobState::to_text, (s,), r),
    ensures
        *s is Pending ==> r@ == "Pending"@,
        *s is Queued ==> r@ == "Queued"@,
        *s is Admitted ==> r@ == "Admitted"@,
        *s is Preparing ==> r@ == "Preparing"@,
        *s is Scanning ==> r@ == "Scanning"@,
        *s is Planning ==> r@ == "Planning"@,
        *s is AwaitingAuthorization ==> r@ == "AwaitingAuthorization"@,
        *s is Authorized ==> r@ == "Authorized"@,
        *s is WaitingResources ==> r@ == "WaitingResources"@,
        *s is Executing ==> r@ == "Executing"@,
        *s is Verifying ==> r@ == "Verifying"@,
        *s is Reconciling ==> r@ == "Reconciling"@,
        *s is Completed ==> r@ == "Completed"@,
        *s matches JobState::Failed { reason } ==> r@ == "Failed("@ + reason@ + ")"@,
        *s matches JobState::Aborted { reason } ==> r@ == "Aborted("@ + reason@ + ")"@,
        *s matches JobState::Cancelled { reason } ==> r@ == "Cancelled("@ + reason@ + ")"@,
        *s matches JobState::TimedOut { reason } ==> r@ == "TimedOut("@ + reason@ + ")"@,
        *s matches JobState::RecoveryRequired { reason } ==> r@ == "RecoveryRequired("@ + reason@
            + ")"@,
        *s matches JobState::Stale { reason } ==> r@ == "Stale("@ + reason@ + ")"@,
{
}

/// A step that is refused is told of: by the versions where whoever asks knows another
/// one, and by the states where no such step leads on.
pub proof fn law_refused_steps_are_told_why(
    attempt: &mut JobAttempt,
    next: JobState,
    version: u64,
    now: UnixTimestamp,
    r: Result<(), String>,
)
    requires
        call_ensures(JobAttempt::transition_at, (attempt, next, version, now), r),
    ensures
        r matches Err(e) ==> e@ == if old(attempt).state_version != version {
            "CAS failed for attempt "@ + old(attempt).attempt_id.shown() + ": expected version "@
                + numerals::decimal(version as nat) + ", actual "@ + numerals::decimal(
                old(attempt).state_version as nat,
            )
        } else {
            "Illegal state transition from '"@ + old(attempt).state.shown() + "' to '"@
                + next.shown() + "' for attempt "@ + old(attempt).attempt_id.shown()
        },
{
}

} // verus!
