//! The process-wide diagnostic sink and the `soft_error` built-in.
//!
//! The sink keeps every submitted record, in order, and answers each
//! submission with the outcome that the current policy gives its key.  The
//! host creates one sink at start-up, swaps its policy when the external
//! configuration changes, and forwards the records it takes out of it.

use crate::escalation::conclude;
use crate::escalation::conclude_view;
use crate::escalation::concluded;
use crate::escalation::raise;
use crate::escalation::raised;
use crate::escalation::valid_key;
use crate::escalation::DiagnosticRecord;
use crate::escalation::EscalationOutcome;
use crate::escalation::FailureModel;
use crate::escalation::RecordModel;
use crate::escalation::SoftErrorFailure;
use crate::text::same_text;
use vstd::prelude::*;

verus! {

/// Which keys are fatal.
///
/// A roll-out starts from [`EscalationPolicy::record_only`] and marks keys
/// fatal one by one as the scripts that trip them are mended.
pub struct EscalationPolicy {
    fatal_by_default: bool,
    fatal_keys: Vec<String>,
}

impl EscalationPolicy {
    /// Whether a key that was never marked is fatal.
    pub closed spec fn fatal_by_default(&self) -> bool {
        self.fatal_by_default
    }

    /// The keys that were marked fatal.
    pub closed spec fn fatal_keys(&self) -> Set<Seq<char>> {
        Set::new(|key: Seq<char>| exists|i: int| 0 <= i < self.fatal_keys@.len() && #[trigger] self.fatal_keys@[i]@ == key)
    }

    /// The outcome that the policy gives a key.
    pub open spec fn outcome(&self, key: Seq<char>) -> EscalationOutcome {
        if self.fatal_by_default() || self.fatal_keys().contains(key) {
            EscalationOutcome::Fail
        } else {
            EscalationOutcome::Continue
        }
    }

    /// The policy under which no key is fatal: reports are only recorded.
    pub fn record_only() -> (policy: Self)
        ensures
            !policy.fatal_by_default(),
            policy.fatal_keys() == Set::<Seq<char>>::empty(),
    {
        let policy = EscalationPolicy { fatal_by_default: false, fatal_keys: Vec::new() };
        assert(policy.fatal_keys() =~= Set::<Seq<char>>::empty());
        policy
    }

    /// The policy under which every key is fatal.
    pub fn fail_always() -> (policy: Self)
        ensures
            policy.fatal_by_default(),
            policy.fatal_keys() == Set::<Seq<char>>::empty(),
    {
        let policy = EscalationPolicy { fatal_by_default: true, fatal_keys: Vec::new() };
        assert(policy.fatal_keys() =~= Set::<Seq<char>>::empty());
        policy
    }

    /// Whether `key` was marked fatal.
    fn is_marked(&self, key: &str) -> (marked: bool)
        ensures
            marked == self.fatal_keys().contains(key@),
    {
        let mut i: usize = 0;
        while i < self.fatal_keys.len()
            invariant
                i <= self.fatal_keys@.len(),
                forall|j: int| 0 <= j < i ==> #[trigger] self.fatal_keys@[j]@ != key@,
            decreases self.fatal_keys@.len() - i,
        {
            if same_text(self.fatal_keys[i].as_str(), key) {
                return true;
            }
            i += 1;
        }
        false
    }

    /// Marks `key` fatal.  Marking a key twice changes nothing.
    pub fn escalate(&mut self, key: &str)
        ensures
            final(self).fatal_by_default() == old(self).fatal_by_default(),
            final(self).fatal_keys() == old(self).fatal_keys().insert(key@),
    {
        if self.is_marked(key) {
            assert(self.fatal_keys() =~= self.fatal_keys().insert(key@));
            return ;
        }
        let ghost before = self.fatal_keys@;
        self.fatal_keys.push(key.to_owned());
        proof {
            let after = self.fatal_keys@;
            assert(after == before.push(after[before.len() as int]));
            assert forall|k: Seq<char>|
                final(self).fatal_keys().contains(k) == old(self).fatal_keys().insert(
                    key@,
                ).contains(k) by {
                if old(self).fatal_keys().insert(key@).contains(k) {
                    if k == key@ {
                        assert(after[before.len() as int]@ == k);
                    } else {
                        let i = choose|i: int| 0 <= i < before.len() && #[trigger] before[i]@ == k;
                        assert(after[i]@ == k);
                    }
                }
            }
            assert(final(self).fatal_keys() =~= old(self).fatal_keys().insert(key@));
        }
    }

    /// The outcome that the policy gives `key`.
    pub fn outcome_for(&self, key: &str) -> (outcome: EscalationOutcome)
        ensures
            outcome == self.outcome(key@),
    {
        if self.fatal_by_default || self.is_marked(key) {
            EscalationOutcome::Fail
        } else {
            EscalationOutcome::Continue
        }
    }
}

/// The view of a run of records.
pub open spec fn records_view(records: Seq<DiagnosticRecord>) -> Seq<RecordModel> {
    records.map_values(|record: DiagnosticRecord| record@)
}

/// Records every report and answers it from the current policy.
pub struct DiagnosticSink {
    policy: EscalationPolicy,
    recorded: Vec<DiagnosticRecord>,
}

impl DiagnosticSink {
    /// The policy in force.
    pub closed spec fn policy(&self) -> EscalationPolicy {
        self.policy
    }

    /// The records submitted and not yet taken out, oldest first.
    pub closed spec fn records(&self) -> Seq<RecordModel> {
        records_view(self.recorded@)
    }

    /// A sink that holds no record and answers from `policy`.
    pub fn new(policy: EscalationPolicy) -> (sink: Self)
        ensures
            sink.policy() == policy,
            sink.records() == Seq::<RecordModel>::empty(),
    {
        let sink = DiagnosticSink { policy, recorded: Vec::new() };
        assert(sink.records() =~= Seq::<RecordModel>::empty());
        sink
    }

    /// Puts `policy` in force.  The records stay.
    pub fn set_policy(&mut self, policy: EscalationPolicy)
        ensures
            final(self).policy() == policy,
            final(self).records() == old(self).records(),
    {
        self.policy = policy;
    }

    /// Records `record`, once, and returns the outcome that the policy gives
    /// its key.
    pub fn report(&mut self, record: DiagnosticRecord) -> (outcome: EscalationOutcome)
        ensures
            final(self).policy() == old(self).policy(),
            final(self).records() == old(self).records().push(record@),
            outcome == old(self).policy().outcome(record@.key),
    {
        let outcome = self.policy.outcome_for(record.key());
        self.recorded.push(record);
        assert(final(self).records() =~= old(self).records().push(record@));
        outcome
    }

    /// The number of records held.
    pub fn len(&self) -> (n: usize)
        ensures
            n == self.records().len(),
    {
        self.recorded.len()
    }

    /// Takes the records out, oldest first, for the host to forward.
    pub fn take_records(&mut self) -> (taken: Vec<DiagnosticRecord>)
        ensures
            final(self).policy() == old(self).policy(),
            final(self).records() == Seq::<RecordModel>::empty(),
            records_view(taken@) == old(self).records(),
    {
        let mut taken: Vec<DiagnosticRecord> = Vec::new();
        std::mem::swap(&mut taken, &mut self.recorded);
        assert(final(self).records() =~= Seq::<RecordModel>::empty());
        taken
    }
}

/// What [`soft_error`] owes, given the outcome that the policy gives the key.
pub open spec fn soft_error_result(
    key: Seq<char>,
    message: Seq<char>,
    call_stack: Seq<char>,
    outcome: EscalationOutcome,
) -> Result<(), FailureModel> {
    match raised(key, message, call_stack) {
        Ok(record) => concluded(record, outcome),
        Err(failure) => Err(failure),
    }
}

/// The records that [`soft_error`] leaves in a sink that held `before`.
pub open spec fn soft_error_records(
    before: Seq<RecordModel>,
    key: Seq<char>,
    message: Seq<char>,
    call_stack: Seq<char>,
) -> Seq<RecordModel> {
    if valid_key(key) {
        before.push(RecordModel { key, message, call_stack })
    } else {
        before
    }
}

/// Reports a condition under `key`.
///
/// A key without the reserved prefix fails the call and never reaches the
/// sink.  Any other report is recorded exactly once, and fails the call
/// exactly when the policy makes its key fatal.
pub fn soft_error(key: &str, message: String, call_stack: String, sink: &mut DiagnosticSink) -> (r:
    Result<(), SoftErrorFailure>)
    ensures
        final(sink).policy() == old(sink).policy(),
        final(sink).records() == soft_error_records(
            old(sink).records(),
            key@,
            message@,
            call_stack@,
        ),
        conclude_view(r) == soft_error_result(
            key@,
            message@,
            call_stack@,
            old(sink).policy().outcome(key@),
        ),
{
    match raise(key, message, call_stack) {
        Err(failure) => Err(failure),
        Ok(record) => {
            let outcome = sink.report(record.clone());
            conclude(record, outcome)
        },
    }
}

/// A key without the reserved prefix fails with that key, whatever the
/// message and the policy, and leaves the sink as it was.
pub proof fn lemma_invalid_key_never_reaches_sink(
    before: Seq<RecordModel>,
    key: Seq<char>,
    message: Seq<char>,
    call_stack: Seq<char>,
    outcome: EscalationOutcome,
)
    requires
        !valid_key(key),
    ensures
        soft_error_result(key, message, call_stack, outcome) == Err::<(), FailureModel>(
            FailureModel::InvalidKey { key },
        ),
        soft_error_records(before, key, message, call_stack) == before,
{
}

/// A valid key whose outcome is to continue returns normally, and the sink
/// receives the record of the report exactly once.
pub proof fn lemma_continue_is_recorded_once(
    before: Seq<RecordModel>,
    key: Seq<char>,
    message: Seq<char>,
    call_stack: Seq<char>,
)
    requires
        valid_key(key),
    ensures
        soft_error_result(key, message, call_stack, EscalationOutcome::Continue) == Ok::<
            (),
            FailureModel,
        >(()),
        soft_error_records(before, key, message, call_stack) == before.push(
            RecordModel { key, message, call_stack },
        ),
        soft_error_records(before, key, message, call_stack).len() == before.len() + 1,
{
}

/// A valid key whose outcome is to fail fails with the key, the message and
/// the call stack, and the sink still receives the record exactly once.
pub proof fn lemma_failure_is_recorded_once(
    before: Seq<RecordModel>,
    key: Seq<char>,
    message: Seq<char>,
    call_stack: Seq<char>,
)
    requires
        valid_key(key),
    ensures
        soft_error_result(key, message, call_stack, EscalationOutcome::Fail) == Err::<
            (),
            FailureModel,
        >(FailureModel::Escalated { record: RecordModel { key, message, call_stack } }),
        soft_error_records(before, key, message, call_stack) == before.push(
            RecordModel { key, message, call_stack },
        ),
        soft_error_records(before, key, message, call_stack).len() == before.len() + 1,
{
}

} // verus!
