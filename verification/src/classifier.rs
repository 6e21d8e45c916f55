//! The error classifier: which provider failures mean "not configured".
//!
//! A provider answers a detail call with a response or with a failure. A few
//! failures are no failures at all: the provider reports that the capability
//! was never configured for the resource. Which codes say so depends on the
//! operation, and the table of them is `benign_code`.

use crate::common::AWSError;
use vstd::prelude::*;
use vstd::string::*;

verus! {

/// The provider calls that the engine knows.
#[derive(Debug, Clone, Copy, PartialEq, Eq, Structural)]
pub enum Operation {
    ListBuckets,
    GetBucketVersioning,
    GetBucketAcl,
    GetBucketPolicy,
    GetBucketLogging,
    GetBucketLifecycleConfiguration,
    ListUsers,
    GetUserPolicy,
    DescribeInstances,
    DescribeImages,
    GetCallerIdentity,
}

/// Where in a call's life a failure arose.
#[derive(Debug, Clone, Copy, PartialEq, Eq, Structural)]
pub enum FailureKind {
    /// The request could not be built.
    Construction,
    /// No answer arrived in time.
    Timeout,
    /// The request could not be sent.
    Dispatch,
    /// An answer arrived that could not be read.
    Response,
    /// The service answered with an error of its own.
    Service,
}

/// A raw provider failure, as plain values.
#[derive(Debug, Clone, PartialEq, Eq)]
pub struct ProviderFailure {
    pub kind: FailureKind,
    /// The service's error code, where the service gave one.
    pub code: Option<String>,
    /// The failure as the provider describes it.
    pub message: String,
}

/// What a detail call found for one resource.
#[derive(Debug, Clone, PartialEq, Eq)]
pub enum Detail<T> {
    /// The provider reports that the capability is not configured.
    Absent,
    /// The capability's configuration.
    Present(T),
}

impl<T> Detail<T> {
    /// The configuration, if there is one.
    pub fn present(self) -> (found: Option<T>)
        ensures
            found == match self {
                Detail::Present(response) => Some(response),
                Detail::Absent => None,
            },
    {
        match self {
            Detail::Present(response) => Some(response),
            Detail::Absent => None,
        }
    }

    /// Whether the capability is not configured.
    pub fn is_absent(&self) -> (absent: bool)
        ensures
            absent == (*self is Absent),
    {
        match self {
            Detail::Absent => true,
            Detail::Present(_) => false,
        }
    }
}

/// What the classifier makes of a failure.
#[derive(Debug, Clone, PartialEq, Eq)]
pub enum Verdict {
    /// The failure stands for an empty result.
    Absent,
    /// The failure aborts the report.
    Propagate(AWSError),
}

/// The vocabulary: the error code by which the provider says "not configured"
/// for each operation, where it has one.
pub open spec fn benign_code(op: Operation) -> Option<Seq<char>> {
    match op {
        Operation::GetBucketPolicy => Some("NoSuchBucketPolicy"@),
        Operation::GetBucketLifecycleConfiguration => Some("NoSuchLifecycleConfiguration"@),
        Operation::GetUserPolicy => Some("ValidationError"@),
        _ => None,
    }
}

/// A failure is benign for an operation when the service itself answered, with
/// exactly the code that the vocabulary holds for that operation.
pub open spec fn is_benign(op: Operation, failure: ProviderFailure) -> bool {
    &&& failure.kind == FailureKind::Service
    &&& failure.code matches Some(code)
    &&& benign_code(op) == Some(code@)
}

/// The detail that the outcome of a call of `op` stands for: a response is
/// present, a benign failure is absent. Any other failure stands for none.
pub open spec fn detail_of<T>(op: Operation, outcome: Result<T, ProviderFailure>) -> Option<
    Detail<T>,
> {
    match outcome {
        Ok(response) => Some(Detail::Present(response)),
        Err(failure) => if is_benign(op, failure) {
            Some(Detail::Absent)
        } else {
            None
        },
    }
}

/// An outcome aborts the report when it stands for no detail.
pub open spec fn aborts<T>(op: Operation, outcome: Result<T, ProviderFailure>) -> bool {
    detail_of(op, outcome) is None
}

/// What a call's outcome means for the report: the detail it stands for, or
/// else an error that carries the provider's message on and names the call.
pub open spec fn resolved<T>(
    op: Operation,
    outcome: Result<T, ProviderFailure>,
    r: Result<Detail<T>, AWSError>,
) -> bool {
    match detail_of(op, outcome) {
        Some(detail) => r == Ok::<Detail<T>, AWSError>(detail),
        None => r matches Err(error) && error.reports(outcome->Err_0.message, Some(op), None),
    }
}

/// The vocabulary's entry for `op`.
pub fn vocabulary(op: Operation) -> (code: Option<String>)
    ensures
        code is Some == benign_code(op) is Some,
        code matches Some(text) ==> benign_code(op) == Some(text@),
{
    match op {
        Operation::GetBucketPolicy => Some(String::from_str("NoSuchBucketPolicy")),
        Operation::GetBucketLifecycleConfiguration => Some(
            String::from_str("NoSuchLifecycleConfiguration"),
        ),
        Operation::GetUserPolicy => Some(String::from_str("ValidationError")),
        _ => None,
    }
}

/// Whether `failure` means "not configured" for `op`.
pub fn benign(op: Operation, failure: &ProviderFailure) -> (b: bool)
    ensures
        b == is_benign(op, *failure),
{
    match failure.kind {
        FailureKind::Service => match (&failure.code, vocabulary(op)) {
            (Some(code), Some(expected)) => *code == expected,
            _ => false,
        },
        _ => false,
    }
}

/// Classifies a failure of `op`: absent if and only if it is benign for `op`;
/// otherwise it propagates with the provider's message unchanged, as a
/// failure of `op`.
pub fn classify(op: Operation, failure: ProviderFailure) -> (verdict: Verdict)
    ensures
        verdict is Absent <==> is_benign(op, failure),
        verdict matches Verdict::Propagate(error) ==> error.reports(
            failure.message,
            Some(op),
            None,
        ),
{
    if benign(op, &failure) {
        Verdict::Absent
    } else {
        Verdict::Propagate(AWSError::from_message(failure.message).during(op))
    }
}

/// Resolves the outcome of one detail call of `op` into a detail record.
pub fn resolve<T>(op: Operation, outcome: Result<T, ProviderFailure>) -> (r: Result<
    Detail<T>,
    AWSError,
>)
    ensures
        resolved(op, outcome, r),
{
    match outcome {
        Ok(response) => Ok(Detail::Present(response)),
        Err(failure) => match classify(op, failure) {
            Verdict::Absent => Ok(Detail::Absent),
            Verdict::Propagate(error) => Err(error),
        },
    }
}

/// An operation without a vocabulary entry never yields an absent detail:
/// its failures all propagate.
pub proof fn lemma_no_vocabulary_no_absence<T>(
    op: Operation,
    outcome: Result<T, ProviderFailure>,
    r: Result<Detail<T>, AWSError>,
)
    requires
        benign_code(op) is None,
        resolved(op, outcome, r),
    ensures
        r is Ok <==> outcome is Ok,
        r matches Ok(detail) ==> detail is Present,
{
}

/// The same failure can be benign for one operation and fatal for another:
/// a code is benign only for the operations whose vocabulary holds it.
pub proof fn lemma_benign_is_per_operation(
    op: Operation,
    other: Operation,
    failure: ProviderFailure,
)
    requires
        is_benign(op, failure),
        benign_code(other) != benign_code(op),
    ensures
        !is_benign(other, failure),
{
}

} // verus!
