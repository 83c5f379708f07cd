//! Staged escalation of diagnostics raised by scripts.
//!
//! A script reports a condition under a stable key.  Every report is
//! recorded; whether it also fails the evaluation is decided per key by a
//! policy that the host can change while it runs.  A condition is thus first
//! observed silently and later turned into a hard failure, key by key.

use crate::text::starts_with;
use vstd::prelude::*;
use vstd::string::*;

verus! {

/// The prefix that every stable key carries.
pub const RESERVED_PREFIX: &'static str = "starlark_";

/// The characters of [`RESERVED_PREFIX`].
pub open spec fn reserved_prefix() -> Seq<char> {
    "starlark_"@
}

/// A key may be reported under exactly when it begins with the reserved
/// prefix.
pub open spec fn valid_key(key: Seq<char>) -> bool {
    reserved_prefix().is_prefix_of(key)
}

/// Tests [`valid_key`].
pub fn is_valid_key(key: &str) -> (b: bool)
    ensures
        b == valid_key(key@),
{
    starts_with(key, RESERVED_PREFIX)
}

/// What becomes of the evaluation that reported a condition.
#[derive(Debug, Clone, Copy, PartialEq, Eq, Structural)]
pub enum EscalationOutcome {
    /// The report is recorded and the evaluation goes on.
    Continue,
    /// The report is recorded and the evaluation fails.
    Fail,
}

/// The outcome to act on when the sink was asked through a transport that
/// may fail: a reply that never came counts as [`EscalationOutcome::Continue`],
/// so that lost telemetry never stops a build.
pub fn outcome_of_reply(reply: Option<EscalationOutcome>) -> (outcome: EscalationOutcome)
    ensures
        outcome == match reply {
            Some(o) => o,
            None => EscalationOutcome::Continue,
        },
{
    match reply {
        Some(o) => o,
        None => EscalationOutcome::Continue,
    }
}

/// A key under which conditions are reported and counted.  It always
/// begins with the reserved prefix.
#[derive(Debug, PartialEq, Eq)]
pub struct StableKey {
    text: String,
}

impl View for StableKey {
    type V = Seq<char>;

    closed spec fn view(&self) -> Seq<char> {
        self.text@
    }
}

impl Clone for StableKey {
    fn clone(&self) -> (r: Self)
        ensures
            r@ == self@,
    {
        proof {
            use_type_invariant(self);
        }
        StableKey { text: self.text.clone() }
    }
}

impl StableKey {
    #[verifier::type_invariant]
    spec fn begins_with_prefix(&self) -> bool {
        valid_key(self.text@)
    }

    /// The key that reads `text`, if `text` is a valid key.
    pub fn new(text: &str) -> (key: Option<Self>)
        ensures
            match key {
                Some(k) => valid_key(text@) && k@ == text@,
                None => !valid_key(text@),
            },
    {
        if is_valid_key(text) {
            Some(StableKey { text: text.to_owned() })
        } else {
            None
        }
    }

    /// The text of the key.
    pub fn as_str(&self) -> (text: &str)
        ensures
            text@ == self@,
            valid_key(self@),
    {
        proof {
            use_type_invariant(self);
        }
        self.text.as_str()
    }

    /// The text of the key, owned.
    pub fn into_string(self) -> (text: String)
        ensures
            text@ == self@,
            valid_key(self@),
    {
        proof {
            use_type_invariant(&self);
        }
        self.text
    }
}

/// The mathematical content of a [`DiagnosticRecord`].
pub struct RecordModel {
    pub key: Seq<char>,
    pub message: Seq<char>,
    pub call_stack: Seq<char>,
}

/// One reported condition: its stable key, the author's message and the
/// rendered call stack of the evaluation at the moment of the report.  A
/// record does not change once it is made.
#[derive(Debug, PartialEq, Eq)]
pub struct DiagnosticRecord {
    key: StableKey,
    message: String,
    call_stack: String,
}

impl View for DiagnosticRecord {
    type V = RecordModel;

    closed spec fn view(&self) -> RecordModel {
        RecordModel { key: self.key@, message: self.message@, call_stack: self.call_stack@ }
    }
}

impl Clone for DiagnosticRecord {
    fn clone(&self) -> (r: Self)
        ensures
            r@ == self@,
    {
        DiagnosticRecord {
            key: self.key.clone(),
            message: self.message.clone(),
            call_stack: self.call_stack.clone(),
        }
    }
}

/// The text under which a record is reported and, once escalated, shown.
pub open spec fn record_text(record: RecordModel) -> Seq<char> {
    "Error produced by Starlark: "@ + record.key + ": "@ + record.message + "\n"@
        + record.call_stack
}

/// The text shown for a key that lacks the reserved prefix.
pub open spec fn invalid_key_text(key: Seq<char>) -> Seq<char> {
    "soft_error originated from starlark should have category starting with `starlark_`, got: `"@
        + key + "`"@
}

/// Renders a report as one text.
fn render(key: &str, message: &str, call_stack: &str) -> (text: String)
    ensures
        text@ == record_text(RecordModel { key: key@, message: message@, call_stack: call_stack@ }),
{
    let mut text = String::from_str("Error produced by Starlark: ");
    text.append(key);
    text.append(": ");
    text.append(message);
    text.append("\n");
    text.append(call_stack);
    text
}

impl DiagnosticRecord {
    /// The record of a report under `key`.
    pub fn new(key: StableKey, message: String, call_stack: String) -> (record: Self)
        ensures
            record@ == (RecordModel { key: key@, message: message@, call_stack: call_stack@ }),
            valid_key(record@.key),
    {
        proof {
            use_type_invariant(&key);
        }
        DiagnosticRecord { key, message, call_stack }
    }

    /// The key of the report.
    pub fn key(&self) -> (key: &str)
        ensures
            key@ == self@.key,
            valid_key(self@.key),
    {
        self.key.as_str()
    }

    /// The author's message.
    pub fn message(&self) -> (message: &str)
        ensures
            message@ == self@.message,
    {
        self.message.as_str()
    }

    /// The call stack at the moment of the report.
    pub fn call_stack(&self) -> (call_stack: &str)
        ensures
            call_stack@ == self@.call_stack,
    {
        self.call_stack.as_str()
    }

    /// The record as one text: key, message and call stack.
    pub fn formatted(&self) -> (text: String)
        ensures
            text@ == record_text(self@),
    {
        render(self.key.as_str(), self.message.as_str(), self.call_stack.as_str())
    }
}

/// The mathematical content of a [`SoftErrorFailure`].
pub enum FailureModel {
    InvalidKey { key: Seq<char> },
    Escalated { record: RecordModel },
}

/// Why a call of `soft_error` failed the evaluation.
#[derive(Debug, Clone, PartialEq, Eq)]
pub enum SoftErrorFailure {
    /// The key does not begin with the reserved prefix.  This is a mistake of
    /// the caller and fails whatever the policy says.
    InvalidKey { key: String },
    /// The policy makes the reported condition fatal.
    Escalated { key: String, message: String, call_stack: String },
}

impl View for SoftErrorFailure {
    type V = FailureModel;

    open spec fn view(&self) -> FailureModel {
        match self {
            SoftErrorFailure::InvalidKey { key } => FailureModel::InvalidKey { key: key@ },
            SoftErrorFailure::Escalated { key, message, call_stack } => FailureModel::Escalated {
                record: RecordModel { key: key@, message: message@, call_stack: call_stack@ },
            },
        }
    }
}

/// The text shown for a failure.
pub open spec fn failure_text(failure: FailureModel) -> Seq<char> {
    match failure {
        FailureModel::InvalidKey { key } => invalid_key_text(key),
        FailureModel::Escalated { record } => record_text(record),
    }
}

impl SoftErrorFailure {
    /// The failure as the text that the script's author sees.
    pub fn message(&self) -> (text: String)
        ensures
            text@ == failure_text(self@),
    {
        match self {
            SoftErrorFailure::InvalidKey { key } => {
                let mut text = String::from_str(
                    "soft_error originated from starlark should have category starting with `starlark_`, got: `",
                );
                text.append(key.as_str());
                text.append("`");
                text
            },
            SoftErrorFailure::Escalated { key, message, call_stack } => render(
                key.as_str(),
                message.as_str(),
                call_stack.as_str(),
            ),
        }
    }
}

/// What [`raise`] owes for a key, a message and a call stack.
pub open spec fn raised(key: Seq<char>, message: Seq<char>, call_stack: Seq<char>) -> Result<
    RecordModel,
    FailureModel,
> {
    if valid_key(key) {
        Ok(RecordModel { key, message, call_stack })
    } else {
        Err(FailureModel::InvalidKey { key })
    }
}

/// What [`conclude`] owes for a record and the outcome configured for it.
pub open spec fn concluded(record: RecordModel, outcome: EscalationOutcome) -> Result<
    (),
    FailureModel,
> {
    match outcome {
        EscalationOutcome::Continue => Ok(()),
        EscalationOutcome::Fail => Err(FailureModel::Escalated { record }),
    }
}

/// The view of the result of [`raise`].
pub open spec fn raise_view(r: Result<DiagnosticRecord, SoftErrorFailure>) -> Result<
    RecordModel,
    FailureModel,
> {
    match r {
        Ok(record) => Ok(record@),
        Err(failure) => Err(failure@),
    }
}

/// The view of the result of [`conclude`] and of [`soft_error`].
pub open spec fn conclude_view(r: Result<(), SoftErrorFailure>) -> Result<(), FailureModel> {
    match r {
        Ok(()) => Ok(()),
        Err(failure) => Err(failure@),
    }
}

/// First half of a report: checks the key and builds the record to submit.
///
/// A key without the reserved prefix is refused here, before anything is
/// submitted.
pub fn raise(key: &str, message: String, call_stack: String) -> (r: Result<
    DiagnosticRecord,
    SoftErrorFailure,
>)
    ensures
        raise_view(r) == raised(key@, message@, call_stack@),
{
    match StableKey::new(key) {
        Some(stable) => Ok(DiagnosticRecord::new(stable, message, call_stack)),
        None => Err(SoftErrorFailure::InvalidKey { key: key.to_owned() }),
    }
}

/// Second half of a report: turns the outcome that the sink gave for a
/// submitted record into the result of the call.
pub fn conclude(record: DiagnosticRecord, outcome: EscalationOutcome) -> (r: Result<
    (),
    SoftErrorFailure,
>)
    ensures
        conclude_view(r) == concluded(record@, outcome),
{
    match outcome {
        EscalationOutcome::Continue => Ok(()),
        EscalationOutcome::Fail => Err(
            SoftErrorFailure::Escalated {
                key: record.key.into_string(),
                message: record.message,
                call_stack: record.call_stack,
            },
        ),
    }
}

} // verus!
