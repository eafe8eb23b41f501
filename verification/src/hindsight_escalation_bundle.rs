//! Hindsight escalation bundle: escalates from minimal hindsight traces to
//! full replay bundles on declared triggers.
//!
//! Routine boundary capture records only minimal redacted digests.  When an
//! anomaly, regression or user-visible failure is declared, the pipeline
//! decides (by an always-suppress list, an always-escalate list, a severity
//! threshold and a cost budget) whether to escalate, builds a replay bundle
//! whose content depends on the severity, and issues a receipt linking the
//! trigger, the bundle and the epoch.  All costs are fixed-point millionths
//! (1_000_000 = 1.0) and every record carries a content hash.

use crate::collections::{EnumSet, Ranked};
use crate::strmap::str_eq;
use crate::foundation::{
    decimal, owned, push_bytes, push_str, push_u64_le, ratio, ratio_millionths, sat_mul,
    sat_mul_spec, sha256_digest, u64_le, u64_to_decimal, utf8, ContentHash, SecurityEpoch,
};
use vstd::prelude::*;

verus! {

/// Schema version of escalation bundle artifacts.
pub const ESCALATION_SCHEMA_VERSION: &'static str = "franken-engine.hindsight-escalation-bundle.v1";

/// Bead identifier of this component.
pub const ESCALATION_BEAD_ID: &'static str = "bd-1lsy.9.11.3";

/// Component name.
pub const COMPONENT: &'static str = "hindsight_escalation_bundle";

/// One million: the unit of fixed-point millionths.
pub const MILLION: u64 = 1_000_000;

/// Default cost budget for escalation (millionths of the per-run budget).
pub const DEFAULT_COST_BUDGET_MILLIONTHS: u64 = 100_000;

// ---------------------------------------------------------------------------
// Boundary classes, redaction, gate configuration
// ---------------------------------------------------------------------------

/// Class of nondeterministic boundary whose captures a trigger concerns.
#[derive(Debug, Clone, Copy, PartialEq, Eq, PartialOrd, Ord, Hash, Structural)]
pub enum BoundaryClass {
    ClockRead,
    NetworkResponse,
}

impl BoundaryClass {
    /// Stable name of the class.
    pub open spec fn name(self) -> Seq<char> {
        match self {
            BoundaryClass::ClockRead => "clock_read"@,
            BoundaryClass::NetworkResponse => "network_response"@,
        }
    }

    /// Stable name of the class.
    pub fn as_str(self) -> (r: &'static str)
        ensures
            r@ == self.name(),
    {
        match self {
            BoundaryClass::ClockRead => "clock_read",
            BoundaryClass::NetworkResponse => "network_response",
        }
    }
}

impl Ranked for BoundaryClass {
    open spec fn rank(self) -> nat {
        match self {
            BoundaryClass::ClockRead => 0,
            BoundaryClass::NetworkResponse => 1,
        }
    }

    open spec fn variant_count() -> nat {
        2
    }

    open spec fn of_rank(r: nat) -> Self {
        if r == 0 {
            BoundaryClass::ClockRead
        } else {
            BoundaryClass::NetworkResponse
        }
    }

    fn rank_exec(self) -> (r: usize) {
        match self {
            BoundaryClass::ClockRead => 0,
            BoundaryClass::NetworkResponse => 1,
        }
    }

    fn count() -> (r: usize) {
        2
    }

    fn from_rank(r: usize) -> (x: Self) {
        if r == 0 {
            BoundaryClass::ClockRead
        } else {
            BoundaryClass::NetworkResponse
        }
    }

    proof fn lemma_rank(x: Self) {
    }

    proof fn lemma_count() {
    }

    proof fn lemma_of_rank(r: nat) {
    }
}

/// How a captured payload is redacted in a bundle.
#[derive(Debug, Clone, Copy, PartialEq, Eq, PartialOrd, Ord, Hash, Structural)]
pub enum RedactionTreatment {
    Plaintext,
    DigestOnly,
    Omit,
}

impl RedactionTreatment {
    /// Stable name of the treatment.
    pub open spec fn name(self) -> Seq<char> {
        match self {
            RedactionTreatment::Plaintext => "plaintext"@,
            RedactionTreatment::DigestOnly => "digest_only"@,
            RedactionTreatment::Omit => "omit"@,
        }
    }

    /// Stable name of the treatment.
    pub fn as_str(self) -> (r: &'static str)
        ensures
            r@ == self.name(),
    {
        match self {
            RedactionTreatment::Plaintext => "plaintext",
            RedactionTreatment::DigestOnly => "digest_only",
            RedactionTreatment::Omit => "omit",
        }
    }
}

/// Runtime gate settings that the escalation policy reads.
#[derive(Debug, Clone, Copy, PartialEq, Eq, Structural)]
pub struct GatesConfig {
    /// Escalation cost budget (millionths).
    pub escalation_cost_budget_millionths: u64,
}

// ---------------------------------------------------------------------------
// EscalationTriggerKind
// ---------------------------------------------------------------------------

/// Taxonomy of events that can trigger escalation.
#[derive(Debug, Clone, Copy, PartialEq, Eq, PartialOrd, Ord, Hash, Structural)]
pub enum EscalationTriggerKind {
    AnomalyDetected,
    RegressionObserved,
    UserVisibleFailure,
    PolicyViolation,
    ReplayDivergence,
    ResourceExhaustion,
    OperatorRequest,
}

impl EscalationTriggerKind {
    /// All trigger kinds in canonical order.
    pub const ALL: [EscalationTriggerKind; 7] = [
        EscalationTriggerKind::AnomalyDetected,
        EscalationTriggerKind::RegressionObserved,
        EscalationTriggerKind::UserVisibleFailure,
        EscalationTriggerKind::PolicyViolation,
        EscalationTriggerKind::ReplayDivergence,
        EscalationTriggerKind::ResourceExhaustion,
        EscalationTriggerKind::OperatorRequest,
    ];

    /// Stable name of the kind.
    pub open spec fn name(self) -> Seq<char> {
        match self {
            EscalationTriggerKind::AnomalyDetected => "anomaly_detected"@,
            EscalationTriggerKind::RegressionObserved => "regression_observed"@,
            EscalationTriggerKind::UserVisibleFailure => "user_visible_failure"@,
            EscalationTriggerKind::PolicyViolation => "policy_violation"@,
            EscalationTriggerKind::ReplayDivergence => "replay_divergence"@,
            EscalationTriggerKind::ResourceExhaustion => "resource_exhaustion"@,
            EscalationTriggerKind::OperatorRequest => "operator_request"@,
        }
    }

    /// Variant name as `Debug` renders it.
    pub open spec fn debug_name(self) -> Seq<char> {
        match self {
            EscalationTriggerKind::AnomalyDetected => "AnomalyDetected"@,
            EscalationTriggerKind::RegressionObserved => "RegressionObserved"@,
            EscalationTriggerKind::UserVisibleFailure => "UserVisibleFailure"@,
            EscalationTriggerKind::PolicyViolation => "PolicyViolation"@,
            EscalationTriggerKind::ReplayDivergence => "ReplayDivergence"@,
            EscalationTriggerKind::ResourceExhaustion => "ResourceExhaustion"@,
            EscalationTriggerKind::OperatorRequest => "OperatorRequest"@,
        }
    }

    /// Stable name of the kind.
    pub fn as_str(self) -> (r: &'static str)
        ensures
            r@ == self.name(),
    {
        match self {
            EscalationTriggerKind::AnomalyDetected => "anomaly_detected",
            EscalationTriggerKind::RegressionObserved => "regression_observed",
            EscalationTriggerKind::UserVisibleFailure => "user_visible_failure",
            EscalationTriggerKind::PolicyViolation => "policy_violation",
            EscalationTriggerKind::ReplayDivergence => "replay_divergence",
            EscalationTriggerKind::ResourceExhaustion => "resource_exhaustion",
            EscalationTriggerKind::OperatorRequest => "operator_request",
        }
    }

    fn debug_str(self) -> (r: &'static str)
        ensures
            r@ == self.debug_name(),
    {
        match self {
            EscalationTriggerKind::AnomalyDetected => "AnomalyDetected",
            EscalationTriggerKind::RegressionObserved => "RegressionObserved",
            EscalationTriggerKind::UserVisibleFailure => "UserVisibleFailure",
            EscalationTriggerKind::PolicyViolation => "PolicyViolation",
            EscalationTriggerKind::ReplayDivergence => "ReplayDivergence",
            EscalationTriggerKind::ResourceExhaustion => "ResourceExhaustion",
            EscalationTriggerKind::OperatorRequest => "OperatorRequest",
        }
    }

    /// Display rendering (the stable name).
    pub fn to_string(&self) -> (r: String)
        ensures
            r@ == self.name(),
    {
        owned(self.as_str())
    }
}

impl Ranked for EscalationTriggerKind {
    open spec fn rank(self) -> nat {
        match self {
            EscalationTriggerKind::AnomalyDetected => 0,
            EscalationTriggerKind::RegressionObserved => 1,
            EscalationTriggerKind::UserVisibleFailure => 2,
            EscalationTriggerKind::PolicyViolation => 3,
            EscalationTriggerKind::ReplayDivergence => 4,
            EscalationTriggerKind::ResourceExhaustion => 5,
            EscalationTriggerKind::OperatorRequest => 6,
        }
    }

    open spec fn variant_count() -> nat {
        7
    }

    open spec fn of_rank(r: nat) -> Self {
        if r == 0 {
            EscalationTriggerKind::AnomalyDetected
        } else if r == 1 {
            EscalationTriggerKind::RegressionObserved
        } else if r == 2 {
            EscalationTriggerKind::UserVisibleFailure
        } else if r == 3 {
            EscalationTriggerKind::PolicyViolation
        } else if r == 4 {
            EscalationTriggerKind::ReplayDivergence
        } else if r == 5 {
            EscalationTriggerKind::ResourceExhaustion
        } else {
            EscalationTriggerKind::OperatorRequest
        }
    }

    fn rank_exec(self) -> (r: usize) {
        match self {
            EscalationTriggerKind::AnomalyDetected => 0,
            EscalationTriggerKind::RegressionObserved => 1,
            EscalationTriggerKind::UserVisibleFailure => 2,
            EscalationTriggerKind::PolicyViolation => 3,
            EscalationTriggerKind::ReplayDivergence => 4,
            EscalationTriggerKind::ResourceExhaustion => 5,
            EscalationTriggerKind::OperatorRequest => 6,
        }
    }

    fn count() -> (r: usize) {
        7
    }

    fn from_rank(r: usize) -> (x: Self) {
        EscalationTriggerKind::ALL[r]
    }

    proof fn lemma_rank(x: Self) {
    }

    proof fn lemma_count() {
    }

    proof fn lemma_of_rank(r: nat) {
    }
}

// ---------------------------------------------------------------------------
// TriggerSeverity
// ---------------------------------------------------------------------------

/// Severity level of an escalation trigger.
#[derive(Debug, Clone, Copy, PartialEq, Eq, PartialOrd, Ord, Hash, Structural)]
pub enum TriggerSeverity {
    Advisory,
    Warning,
    Critical,
    Emergency,
}

impl TriggerSeverity {
    /// All severities in ascending order.
    pub const ALL: [TriggerSeverity; 4] = [
        TriggerSeverity::Advisory,
        TriggerSeverity::Warning,
        TriggerSeverity::Critical,
        TriggerSeverity::Emergency,
    ];

    /// Position in ascending order of severity.
    pub open spec fn level(self) -> nat {
        match self {
            TriggerSeverity::Advisory => 0,
            TriggerSeverity::Warning => 1,
            TriggerSeverity::Critical => 2,
            TriggerSeverity::Emergency => 3,
        }
    }

    fn level_exec(self) -> (r: u8)
        ensures
            r == self.level(),
    {
        match self {
            TriggerSeverity::Advisory => 0,
            TriggerSeverity::Warning => 1,
            TriggerSeverity::Critical => 2,
            TriggerSeverity::Emergency => 3,
        }
    }

    /// The severity at a position of `ALL`.
    pub open spec fn at(i: int) -> TriggerSeverity {
        if i == 0 {
            TriggerSeverity::Advisory
        } else if i == 1 {
            TriggerSeverity::Warning
        } else if i == 2 {
            TriggerSeverity::Critical
        } else {
            TriggerSeverity::Emergency
        }
    }

    /// Stable name of the severity.
    pub open spec fn name(self) -> Seq<char> {
        match self {
            TriggerSeverity::Advisory => "advisory"@,
            TriggerSeverity::Warning => "warning"@,
            TriggerSeverity::Critical => "critical"@,
            TriggerSeverity::Emergency => "emergency"@,
        }
    }

    /// Variant name as `Debug` renders it.
    pub open spec fn debug_name(self) -> Seq<char> {
        match self {
            TriggerSeverity::Advisory => "Advisory"@,
            TriggerSeverity::Warning => "Warning"@,
            TriggerSeverity::Critical => "Critical"@,
            TriggerSeverity::Emergency => "Emergency"@,
        }
    }

    /// Stable name of the severity.
    pub fn as_str(self) -> (r: &'static str)
        ensures
            r@ == self.name(),
    {
        match self {
            TriggerSeverity::Advisory => "advisory",
            TriggerSeverity::Warning => "warning",
            TriggerSeverity::Critical => "critical",
            TriggerSeverity::Emergency => "emergency",
        }
    }

    fn debug_str(self) -> (r: &'static str)
        ensures
            r@ == self.debug_name(),
    {
        match self {
            TriggerSeverity::Advisory => "Advisory",
            TriggerSeverity::Warning => "Warning",
            TriggerSeverity::Critical => "Critical",
            TriggerSeverity::Emergency => "Emergency",
        }
    }

    /// Display rendering (the stable name).
    pub fn to_string(&self) -> (r: String)
        ensures
            r@ == self.name(),
    {
        owned(self.as_str())
    }

    /// Cost multiplier of the severity (millionths).
    pub open spec fn multiplier(self) -> u64 {
        match self {
            TriggerSeverity::Advisory => 250_000,
            TriggerSeverity::Warning => 500_000,
            TriggerSeverity::Critical => 750_000,
            TriggerSeverity::Emergency => MILLION,
        }
    }

    /// Cost multiplier for this severity (millionths); higher severity may
    /// spend more on capture.
    pub fn cost_multiplier_millionths(self) -> (r: u64)
        ensures
            r == self.multiplier(),
    {
        match self {
            TriggerSeverity::Advisory => 250_000,
            TriggerSeverity::Warning => 500_000,
            TriggerSeverity::Critical => 750_000,
            TriggerSeverity::Emergency => MILLION,
        }
    }

    /// Whether this severity automatically triggers escalation
    /// (Critical and Emergency).
    pub fn auto_escalate(self) -> (r: bool)
        ensures
            r == (self == TriggerSeverity::Critical || self == TriggerSeverity::Emergency),
    {
        match self {
            TriggerSeverity::Critical | TriggerSeverity::Emergency => true,
            _ => false,
        }
    }
}

// ---------------------------------------------------------------------------
// BundleContentKind
// ---------------------------------------------------------------------------

/// Types of content an escalation bundle can include.
#[derive(Debug, Clone, Copy, PartialEq, Eq, PartialOrd, Ord, Hash, Structural)]
pub enum BundleContentKind {
    FullBoundaryCapture,
    DecisionReceiptChain,
    StateSnapshot,
    ExecutionTrace,
    HeapProfile,
    PolicyEvaluationLog,
    ReplayInputs,
}

impl BundleContentKind {
    /// All content kinds in canonical order.
    pub const ALL: [BundleContentKind; 7] = [
        BundleContentKind::FullBoundaryCapture,
        BundleContentKind::DecisionReceiptChain,
        BundleContentKind::StateSnapshot,
        BundleContentKind::ExecutionTrace,
        BundleContentKind::HeapProfile,
        BundleContentKind::PolicyEvaluationLog,
        BundleContentKind::ReplayInputs,
    ];

    /// Base cost of the kind (millionths).
    pub open spec fn base_cost(self) -> u64 {
        match self {
            BundleContentKind::FullBoundaryCapture => 50_000,
            BundleContentKind::DecisionReceiptChain => 30_000,
            BundleContentKind::StateSnapshot => 80_000,
            BundleContentKind::ExecutionTrace => 120_000,
            BundleContentKind::HeapProfile => 100_000,
            BundleContentKind::PolicyEvaluationLog => 40_000,
            BundleContentKind::ReplayInputs => 60_000,
        }
    }

    /// Base cost of including this content kind (millionths).
    pub fn base_cost_millionths(self) -> (r: u64)
        ensures
            r == self.base_cost(),
    {
        match self {
            BundleContentKind::FullBoundaryCapture => 50_000,
            BundleContentKind::DecisionReceiptChain => 30_000,
            BundleContentKind::StateSnapshot => 80_000,
            BundleContentKind::ExecutionTrace => 120_000,
            BundleContentKind::HeapProfile => 100_000,
            BundleContentKind::PolicyEvaluationLog => 40_000,
            BundleContentKind::ReplayInputs => 60_000,
        }
    }

    /// Stable name of the kind.
    pub open spec fn name(self) -> Seq<char> {
        match self {
            BundleContentKind::FullBoundaryCapture => "full_boundary_capture"@,
            BundleContentKind::DecisionReceiptChain => "decision_receipt_chain"@,
            BundleContentKind::StateSnapshot => "state_snapshot"@,
            BundleContentKind::ExecutionTrace => "execution_trace"@,
            BundleContentKind::HeapProfile => "heap_profile"@,
            BundleContentKind::PolicyEvaluationLog => "policy_evaluation_log"@,
            BundleContentKind::ReplayInputs => "replay_inputs"@,
        }
    }

    /// Stable name of the kind.
    pub fn as_str(self) -> (r: &'static str)
        ensures
            r@ == self.name(),
    {
        match self {
            BundleContentKind::FullBoundaryCapture => "full_boundary_capture",
            BundleContentKind::DecisionReceiptChain => "decision_receipt_chain",
            BundleContentKind::StateSnapshot => "state_snapshot",
            BundleContentKind::ExecutionTrace => "execution_trace",
            BundleContentKind::HeapProfile => "heap_profile",
            BundleContentKind::PolicyEvaluationLog => "policy_evaluation_log",
            BundleContentKind::ReplayInputs => "replay_inputs",
        }
    }

    /// Display rendering (the stable name).
    pub fn to_string(&self) -> (r: String)
        ensures
            r@ == self.name(),
    {
        owned(self.as_str())
    }
}

// ---------------------------------------------------------------------------
// EscalationTrigger
// ---------------------------------------------------------------------------

/// UTF-8 names of the boundaries of class `c`, one per occurrence, in order.
pub open spec fn class_run(bs: Seq<BoundaryClass>, c: BoundaryClass) -> Seq<u8>
    decreases bs.len(),
{
    if bs.len() == 0 {
        Seq::empty()
    } else if bs.last() == c {
        class_run(bs.drop_last(), c) + utf8(c.name())
    } else {
        class_run(bs.drop_last(), c)
    }
}

/// UTF-8 names of some boundaries sorted by name (stably): every clock read,
/// then every network response.
pub open spec fn sorted_boundary_bytes(bs: Seq<BoundaryClass>) -> Seq<u8> {
    class_run(bs, BoundaryClass::ClockRead) + class_run(bs, BoundaryClass::NetworkResponse)
}

fn push_class_run(buf: &mut Vec<u8>, bs: &Vec<BoundaryClass>, c: BoundaryClass)
    ensures
        final(buf)@ == old(buf)@ + class_run(bs@, c),
{
    let ghost start = buf@;
    let mut i: usize = 0;
    while i < bs.len()
        invariant
            i <= bs@.len(),
            buf@ == start + class_run(bs@.take(i as int), c),
        decreases bs@.len() - i,
    {
        proof {
            assert(bs@.take(i + 1).drop_last() =~= bs@.take(i as int));
        }
        if bs[i] == c {
            push_str(buf, c.as_str());
        }
        i = i + 1;
        proof {
            assert(buf@ =~= start + class_run(bs@.take(i as int), c));
        }
    }
    assert(bs@.take(bs@.len() as int) =~= bs@);
}

/// A concrete trigger event that may cause escalation.
#[derive(Debug, Clone, PartialEq, Eq)]
pub struct EscalationTrigger {
    pub trigger_id: String,
    pub kind: EscalationTriggerKind,
    pub severity: TriggerSeverity,
    pub description: String,
    /// Boundary classes relevant to this trigger.
    pub relevant_boundaries: Vec<BoundaryClass>,
    /// Component that fired the trigger.
    pub source_component: String,
    pub trigger_epoch: SecurityEpoch,
    /// Content hash of this trigger.
    pub trigger_hash: ContentHash,
}

impl EscalationTrigger {
    /// Bytes hashed into the trigger hash.
    pub open spec fn hash_input(self) -> Seq<u8> {
        utf8(self.trigger_id@) + utf8(self.kind.name()) + utf8(self.severity.name()) + utf8(
            self.description@,
        ) + sorted_boundary_bytes(self.relevant_boundaries@) + utf8(self.source_component@)
            + u64_le(self.trigger_epoch.0)
    }

    /// Two triggers that agree on everything but the stored hash.
    pub open spec fn same_but_hash(self, other: EscalationTrigger) -> bool {
        &&& self.trigger_id == other.trigger_id
        &&& self.kind == other.kind
        &&& self.severity == other.severity
        &&& self.description == other.description
        &&& self.relevant_boundaries@ == other.relevant_boundaries@
        &&& self.source_component == other.source_component
        &&& self.trigger_epoch == other.trigger_epoch
    }

    /// Recompute the stored content hash from the other fields.
    pub fn recompute_hash(&mut self)
        ensures
            final(self).same_but_hash(*old(self)),
            final(self).relevant_boundaries == old(self).relevant_boundaries,
            final(self).trigger_hash@ == sha256_digest(old(self).hash_input()),
    {
        let mut data: Vec<u8> = Vec::new();
        push_str(&mut data, self.trigger_id.as_str());
        push_str(&mut data, self.kind.as_str());
        push_str(&mut data, self.severity.as_str());
        push_str(&mut data, self.description.as_str());
        push_class_run(&mut data, &self.relevant_boundaries, BoundaryClass::ClockRead);
        push_class_run(&mut data, &self.relevant_boundaries, BoundaryClass::NetworkResponse);
        push_str(&mut data, self.source_component.as_str());
        push_u64_le(&mut data, self.trigger_epoch.as_u64());
        assert(data@ =~= self.hash_input());
        self.trigger_hash = ContentHash::compute(data.as_slice());
    }
}

// ---------------------------------------------------------------------------
// Bundle content
// ---------------------------------------------------------------------------

/// A single content entry in an escalation bundle.
#[derive(Debug, Clone, Copy, PartialEq, Eq)]
pub struct BundleContentEntry {
    pub kind: BundleContentKind,
    /// Digest of the content payload.
    pub content_digest: ContentHash,
    /// Redaction applied to this entry.
    pub redaction: RedactionTreatment,
    /// Size in bytes (estimated or actual).
    pub size_bytes: u64,
    /// Whether the entry was fully captured.
    pub complete: bool,
}

/// Lexicographic order of byte sequences (the order of `ContentHash`).
pub open spec fn bytes_lt(a: Seq<u8>, b: Seq<u8>) -> bool
    decreases a.len(),
{
    if a.len() == 0 {
        b.len() > 0
    } else if b.len() == 0 {
        false
    } else if a[0] != b[0] {
        a[0] < b[0]
    } else {
        bytes_lt(a.drop_first(), b.drop_first())
    }
}

proof fn lemma_bytes_lt_skip(a: Seq<u8>, b: Seq<u8>, i: int)
    requires
        0 <= i <= a.len(),
        i <= b.len(),
        a.take(i) == b.take(i),
    ensures
        bytes_lt(a, b) == bytes_lt(a.skip(i), b.skip(i)),
    decreases i,
{
    if i == 0 {
        assert(a.skip(0) =~= a);
        assert(b.skip(0) =~= b);
    } else {
        assert(a[0] == a.take(i)[0]);
        assert(b[0] == b.take(i)[0]);
        assert(a.drop_first().take(i - 1) =~= a.take(i).drop_first());
        assert(b.drop_first().take(i - 1) =~= b.take(i).drop_first());
        lemma_bytes_lt_skip(a.drop_first(), b.drop_first(), i - 1);
        assert(a.drop_first().skip(i - 1) =~= a.skip(i));
        assert(b.drop_first().skip(i - 1) =~= b.skip(i));
    }
}

/// Whether digest `a` orders strictly before digest `b`.
fn digest_lt(a: &ContentHash, b: &ContentHash) -> (r: bool)
    ensures
        r == bytes_lt(a@, b@),
{
    let mut i: usize = 0;
    while i < 32
        invariant
            i <= 32,
            a@.len() == 32,
            b@.len() == 32,
            a@.take(i as int) == b@.take(i as int),
        decreases 32 - i,
    {
        if a.0[i] != b.0[i] {
            proof {
                lemma_bytes_lt_skip(a@, b@, i as int);
                assert(a@.skip(i as int)[0] == a@[i as int]);
                assert(b@.skip(i as int)[0] == b@[i as int]);
            }
            return a.0[i] < b.0[i];
        }
        proof {
            assert(a@.take(i + 1) =~= a@.take(i as int).push(a@[i as int]));
            assert(b@.take(i + 1) =~= b@.take(i as int).push(b@[i as int]));
        }
        i = i + 1;
    }
    proof {
        lemma_bytes_lt_skip(a@, b@, 32);
        assert(a@.skip(32).len() == 0);
        assert(b@.skip(32).len() == 0);
    }
    false
}

/// Insert `e` into a digest-sorted sequence after every entry whose digest
/// does not exceed its own (a stable insertion).
pub open spec fn insert_by_digest(sorted: Seq<BundleContentEntry>, e: BundleContentEntry) -> Seq<
    BundleContentEntry,
>
    decreases sorted.len(),
{
    if sorted.len() == 0 {
        seq![e]
    } else if bytes_lt(e.content_digest@, sorted.last().content_digest@) {
        insert_by_digest(sorted.drop_last(), e).push(sorted.last())
    } else {
        sorted.push(e)
    }
}

/// Entries stably sorted by content digest.
pub open spec fn sorted_by_digest(s: Seq<BundleContentEntry>) -> Seq<BundleContentEntry>
    decreases s.len(),
{
    if s.len() == 0 {
        Seq::empty()
    } else {
        insert_by_digest(sorted_by_digest(s.drop_last()), s.last())
    }
}

proof fn lemma_insert_by_digest_at(s: Seq<BundleContentEntry>, e: BundleContentEntry, j: int)
    requires
        0 <= j <= s.len(),
        forall|k: int| j <= k < s.len() ==> bytes_lt(e.content_digest@, #[trigger] s[k].content_digest@),
        j == 0 || !bytes_lt(e.content_digest@, s[j - 1].content_digest@),
    ensures
        insert_by_digest(s, e) == s.insert(j, e),
    decreases s.len(),
{
    if s.len() == 0 {
        assert(s.insert(j, e) =~= seq![e]);
    } else if j == s.len() {
        assert(s.insert(j, e) =~= s.push(e));
    } else {
        assert(bytes_lt(e.content_digest@, s[s.len() - 1].content_digest@));
        assert forall|k: int| j <= k < s.drop_last().len() implies bytes_lt(
            e.content_digest@,
            #[trigger] s.drop_last()[k].content_digest@,
        ) by {
            assert(s.drop_last()[k] == s[k]);
        }
        assert(j == 0 || s.drop_last()[j - 1] == s[j - 1]);
        lemma_insert_by_digest_at(s.drop_last(), e, j);
        assert(s.drop_last().insert(j, e).push(s.last()) =~= s.insert(j, e));
    }
}

fn sort_entries_by_digest(entries: &Vec<BundleContentEntry>) -> (r: Vec<BundleContentEntry>)
    ensures
        r@ == sorted_by_digest(entries@),
{
    let mut out: Vec<BundleContentEntry> = Vec::new();
    let mut i: usize = 0;
    while i < entries.len()
        invariant
            i <= entries@.len(),
            out@ == sorted_by_digest(entries@.take(i as int)),
        decreases entries@.len() - i,
    {
        let e = entries[i];
        let mut j: usize = out.len();
        while j > 0 && digest_lt(&e.content_digest, &out[j - 1].content_digest)
            invariant
                j <= out@.len(),
                forall|k: int| j <= k < out@.len() ==> bytes_lt(e.content_digest@, #[trigger] out@[k].content_digest@),
            decreases j,
        {
            j = j - 1;
        }
        proof {
            lemma_insert_by_digest_at(out@, e, j as int);
            assert(entries@.take(i + 1).drop_last() =~= entries@.take(i as int));
        }
        out.insert(j, e);
        i = i + 1;
    }
    assert(entries@.take(entries@.len() as int) =~= entries@);
    out
}

/// Bytes hashed for one bundle entry.
pub open spec fn entry_bytes(e: BundleContentEntry) -> Seq<u8> {
    utf8(e.kind.name()) + e.content_digest@ + utf8(e.redaction.name()) + u64_le(e.size_bytes) + (
    if e.complete {
        seq![49u8]
    } else {
        seq![48u8]
    })
}

/// Bytes hashed for a sequence of entries, in order.
pub open spec fn entries_bytes(s: Seq<BundleContentEntry>) -> Seq<u8>
    decreases s.len(),
{
    if s.len() == 0 {
        Seq::empty()
    } else {
        entries_bytes(s.drop_last()) + entry_bytes(s.last())
    }
}

/// UTF-8 names of some boundary classes, in order.
pub open spec fn boundary_names_bytes(s: Seq<BoundaryClass>) -> Seq<u8>
    decreases s.len(),
{
    if s.len() == 0 {
        Seq::empty()
    } else {
        boundary_names_bytes(s.drop_last()) + utf8(s.last().name())
    }
}

fn push_entry_bytes(buf: &mut Vec<u8>, e: &BundleContentEntry)
    ensures
        final(buf)@ == old(buf)@ + entry_bytes(*e),
{
    let ghost start = buf@;
    push_str(buf, e.kind.as_str());
    push_bytes(buf, e.content_digest.as_bytes());
    push_str(buf, e.redaction.as_str());
    push_u64_le(buf, e.size_bytes);
    buf.push(if e.complete { 49u8 } else { 48u8 });
    assert(buf@ =~= start + entry_bytes(*e));
}

fn push_entries_bytes(buf: &mut Vec<u8>, entries: &Vec<BundleContentEntry>)
    ensures
        final(buf)@ == old(buf)@ + entries_bytes(entries@),
{
    let ghost head = buf@;
    let mut i: usize = 0;
    while i < entries.len()
        invariant
            i <= entries@.len(),
            buf@ == head + entries_bytes(entries@.take(i as int)),
        decreases entries@.len() - i,
    {
        push_entry_bytes(buf, &entries[i]);
        proof {
            assert(entries@.take(i + 1).drop_last() =~= entries@.take(i as int));
            assert(buf@ =~= head + entries_bytes(entries@.take(i + 1)));
        }
        i = i + 1;
    }
    assert(entries@.take(entries@.len() as int) =~= entries@);
}

/// A full replay bundle produced by escalation.
#[derive(Debug, Clone, PartialEq, Eq)]
pub struct EscalationBundle {
    pub bundle_id: String,
    /// The trigger that caused this escalation.
    pub trigger_id: String,
    pub entries: Vec<BundleContentEntry>,
    /// Boundary classes covered.
    pub covered_boundaries: EnumSet<BoundaryClass>,
    /// Total estimated cost (millionths).
    pub total_cost_millionths: u64,
    pub bundle_epoch: SecurityEpoch,
    /// Content hash of this bundle.
    pub bundle_hash: ContentHash,
}

impl EscalationBundle {
    /// Bytes hashed into the bundle hash: entries sorted by digest, covered
    /// boundaries in name order.
    pub open spec fn hash_input(self) -> Seq<u8> {
        utf8(self.bundle_id@) + utf8(self.trigger_id@) + entries_bytes(
            sorted_by_digest(self.entries@),
        ) + boundary_names_bytes(self.covered_boundaries.members()) + u64_le(
            self.total_cost_millionths,
        ) + u64_le(self.bundle_epoch.0)
    }

    /// Recompute the stored content hash from the other fields.
    pub fn recompute_hash(&mut self)
        ensures
            final(self).bundle_id == old(self).bundle_id,
            final(self).trigger_id == old(self).trigger_id,
            final(self).entries == old(self).entries,
            final(self).covered_boundaries == old(self).covered_boundaries,
            final(self).total_cost_millionths == old(self).total_cost_millionths,
            final(self).bundle_epoch == old(self).bundle_epoch,
            final(self).bundle_hash@ == sha256_digest(old(self).hash_input()),
    {
        let mut data: Vec<u8> = Vec::new();
        push_str(&mut data, self.bundle_id.as_str());
        push_str(&mut data, self.trigger_id.as_str());
        let sorted = sort_entries_by_digest(&self.entries);
        push_entries_bytes(&mut data, &sorted);
        let covered = self.covered_boundaries.to_vec();
        let ghost mid = data@;
        let mut k: usize = 0;
        while k < covered.len()
            invariant
                k <= covered@.len(),
                data@ == mid + boundary_names_bytes(covered@.take(k as int)),
            decreases covered@.len() - k,
        {
            push_str(&mut data, covered[k].as_str());
            proof {
                assert(covered@.take(k + 1).drop_last() =~= covered@.take(k as int));
                assert(data@ =~= mid + boundary_names_bytes(covered@.take(k + 1)));
            }
            k = k + 1;
        }
        assert(covered@.take(covered@.len() as int) =~= covered@);
        push_u64_le(&mut data, self.total_cost_millionths);
        push_u64_le(&mut data, self.bundle_epoch.as_u64());
        assert(data@ =~= self.hash_input());
        self.bundle_hash = ContentHash::compute(data.as_slice());
    }
}

// ---------------------------------------------------------------------------
// EscalationDecision / EscalationReceipt
// ---------------------------------------------------------------------------

/// Whether to escalate, and why.
#[derive(Debug, Clone, Copy, PartialEq, Eq, PartialOrd, Ord, Hash, Structural)]
pub enum EscalationDecision {
    /// Produce a full replay bundle.
    Escalate,
    /// The trigger does not warrant escalation.
    Suppress,
    /// Hold the trigger for later batch processing.
    Defer,
}

impl EscalationDecision {
    /// All decisions.
    pub const ALL: [EscalationDecision; 3] = [
        EscalationDecision::Escalate,
        EscalationDecision::Suppress,
        EscalationDecision::Defer,
    ];

    /// Stable name of the decision.
    pub open spec fn name(self) -> Seq<char> {
        match self {
            EscalationDecision::Escalate => "escalate"@,
            EscalationDecision::Suppress => "suppress"@,
            EscalationDecision::Defer => "defer"@,
        }
    }

    /// Stable name of the decision.
    pub fn as_str(self) -> (r: &'static str)
        ensures
            r@ == self.name(),
    {
        match self {
            EscalationDecision::Escalate => "escalate",
            EscalationDecision::Suppress => "suppress",
            EscalationDecision::Defer => "defer",
        }
    }

    /// Display rendering (the stable name).
    pub fn to_string(&self) -> (r: String)
        ensures
            r@ == self.name(),
    {
        owned(self.as_str())
    }
}

/// Record of an escalation decision and its outcome.
#[derive(Debug, Clone, PartialEq, Eq)]
pub struct EscalationReceipt {
    pub receipt_id: String,
    /// The trigger that initiated the decision.
    pub trigger_id: String,
    pub decision: EscalationDecision,
    /// The bundle, if escalated.
    pub bundle_id: Option<String>,
    pub rationale: String,
    /// Remaining budget when the decision was made (millionths).
    pub cost_budget_millionths: u64,
    /// Cost consumed by the decision (millionths).
    pub cost_consumed_millionths: u64,
    pub receipt_epoch: SecurityEpoch,
    /// Content hash of this receipt.
    pub receipt_hash: ContentHash,
}

/// UTF-8 bytes of an optional identifier (nothing when absent).
pub open spec fn opt_bytes(s: Option<String>) -> Seq<u8> {
    match s {
        Some(v) => utf8(v@),
        None => Seq::empty(),
    }
}

impl EscalationReceipt {
    /// Bytes hashed into the receipt hash.
    pub open spec fn hash_input(self) -> Seq<u8> {
        utf8(self.receipt_id@) + utf8(self.trigger_id@) + utf8(self.decision.name()) + opt_bytes(
            self.bundle_id,
        ) + utf8(self.rationale@) + u64_le(self.cost_budget_millionths) + u64_le(
            self.cost_consumed_millionths,
        ) + u64_le(self.receipt_epoch.0)
    }

    /// Recompute the stored content hash from the other fields.
    pub fn recompute_hash(&mut self)
        ensures
            final(self).receipt_id == old(self).receipt_id,
            final(self).trigger_id == old(self).trigger_id,
            final(self).decision == old(self).decision,
            final(self).bundle_id == old(self).bundle_id,
            final(self).rationale == old(self).rationale,
            final(self).cost_budget_millionths == old(self).cost_budget_millionths,
            final(self).cost_consumed_millionths == old(self).cost_consumed_millionths,
            final(self).receipt_epoch == old(self).receipt_epoch,
            final(self).receipt_hash@ == sha256_digest(old(self).hash_input()),
    {
        let mut data: Vec<u8> = Vec::new();
        push_str(&mut data, self.receipt_id.as_str());
        push_str(&mut data, self.trigger_id.as_str());
        push_str(&mut data, self.decision.as_str());
        match &self.bundle_id {
            Some(b) => push_str(&mut data, b.as_str()),
            None => {},
        }
        push_str(&mut data, self.rationale.as_str());
        push_u64_le(&mut data, self.cost_budget_millionths);
        push_u64_le(&mut data, self.cost_consumed_millionths);
        push_u64_le(&mut data, self.receipt_epoch.as_u64());
        assert(data@ =~= self.hash_input());
        self.receipt_hash = ContentHash::compute(data.as_slice());
    }
}

// ---------------------------------------------------------------------------
// EscalationPolicy
// ---------------------------------------------------------------------------

/// Configuration for the escalation decision engine.
#[derive(Debug, Clone, PartialEq, Eq)]
pub struct EscalationPolicy {
    /// Maximum cost budget per escalation window (millionths).
    pub cost_budget_millionths: u64,
    /// Trigger kinds that always escalate regardless of budget.
    pub always_escalate: EnumSet<EscalationTriggerKind>,
    /// Trigger kinds that are always suppressed.
    pub always_suppress: EnumSet<EscalationTriggerKind>,
    /// Minimum severity to auto-escalate.
    pub auto_escalate_threshold: TriggerSeverity,
    /// Content kinds to include at each severity level.
    pub advisory_content: Vec<BundleContentKind>,
    pub warning_content: Vec<BundleContentKind>,
    pub critical_content: Vec<BundleContentKind>,
    pub emergency_content: Vec<BundleContentKind>,
}

/// Default content at advisory severity.
pub open spec fn default_advisory() -> Seq<BundleContentKind> {
    seq![BundleContentKind::FullBoundaryCapture, BundleContentKind::DecisionReceiptChain]
}

/// Default content at warning severity.
pub open spec fn default_warning() -> Seq<BundleContentKind> {
    seq![
        BundleContentKind::FullBoundaryCapture,
        BundleContentKind::DecisionReceiptChain,
        BundleContentKind::PolicyEvaluationLog,
        BundleContentKind::ReplayInputs,
    ]
}

/// Default content at critical severity.
pub open spec fn default_critical() -> Seq<BundleContentKind> {
    seq![
        BundleContentKind::FullBoundaryCapture,
        BundleContentKind::DecisionReceiptChain,
        BundleContentKind::StateSnapshot,
        BundleContentKind::ExecutionTrace,
        BundleContentKind::PolicyEvaluationLog,
        BundleContentKind::ReplayInputs,
    ]
}

/// Default content at emergency severity: every kind.
pub open spec fn default_emergency() -> Seq<BundleContentKind> {
    seq![
        BundleContentKind::FullBoundaryCapture,
        BundleContentKind::DecisionReceiptChain,
        BundleContentKind::StateSnapshot,
        BundleContentKind::ExecutionTrace,
        BundleContentKind::HeapProfile,
        BundleContentKind::PolicyEvaluationLog,
        BundleContentKind::ReplayInputs,
    ]
}

impl EscalationPolicy {
    /// Everything but the budget is as in the default policy.
    pub open spec fn defaults_except_budget(self) -> bool {
        &&& forall|k: EscalationTriggerKind|
            #[trigger] self.always_escalate.has(k) == (k == EscalationTriggerKind::UserVisibleFailure
                || k == EscalationTriggerKind::PolicyViolation)
        &&& forall|k: EscalationTriggerKind| !#[trigger] self.always_suppress.has(k)
        &&& self.auto_escalate_threshold == TriggerSeverity::Critical
        &&& self.advisory_content@ == default_advisory()
        &&& self.warning_content@ == default_warning()
        &&& self.critical_content@ == default_critical()
        &&& self.emergency_content@ == default_emergency()
    }

    /// The default policy.
    pub open spec fn is_default(self) -> bool {
        self.defaults_except_budget() && self.cost_budget_millionths
            == DEFAULT_COST_BUDGET_MILLIONTHS
    }

    /// Create a policy with the cost budget from a gate configuration, keeping
    /// all other fields at their defaults.
    pub fn with_gates_config(config: &GatesConfig) -> (r: Self)
        ensures
            r.defaults_except_budget(),
            r.cost_budget_millionths == config.escalation_cost_budget_millionths,
    {
        let mut p = EscalationPolicy::default();
        p.cost_budget_millionths = config.escalation_cost_budget_millionths;
        p
    }

    /// Content kinds included at a severity.
    pub open spec fn content_spec(self, severity: TriggerSeverity) -> Seq<BundleContentKind> {
        match severity {
            TriggerSeverity::Advisory => self.advisory_content@,
            TriggerSeverity::Warning => self.warning_content@,
            TriggerSeverity::Critical => self.critical_content@,
            TriggerSeverity::Emergency => self.emergency_content@,
        }
    }

    /// Get the content kinds for a given severity level.
    pub fn content_for_severity(&self, severity: TriggerSeverity) -> (r: &[BundleContentKind])
        ensures
            r@ == self.content_spec(severity),
    {
        match severity {
            TriggerSeverity::Advisory => self.advisory_content.as_slice(),
            TriggerSeverity::Warning => self.warning_content.as_slice(),
            TriggerSeverity::Critical => self.critical_content.as_slice(),
            TriggerSeverity::Emergency => self.emergency_content.as_slice(),
        }
    }
}

impl Default for EscalationPolicy {
    fn default() -> (r: Self)
        ensures
            r.is_default(),
    {
        let always_escalate = EnumSet::from_slice(
            &[EscalationTriggerKind::UserVisibleFailure, EscalationTriggerKind::PolicyViolation],
        );
        let ghost listed = seq![
            EscalationTriggerKind::UserVisibleFailure,
            EscalationTriggerKind::PolicyViolation,
        ];
        let r = EscalationPolicy {
            cost_budget_millionths: DEFAULT_COST_BUDGET_MILLIONTHS,
            always_escalate,
            always_suppress: EnumSet::new(),
            auto_escalate_threshold: TriggerSeverity::Critical,
            advisory_content: vec![
                BundleContentKind::FullBoundaryCapture,
                BundleContentKind::DecisionReceiptChain,
            ],
            warning_content: vec![
                BundleContentKind::FullBoundaryCapture,
                BundleContentKind::DecisionReceiptChain,
                BundleContentKind::PolicyEvaluationLog,
                BundleContentKind::ReplayInputs,
            ],
            critical_content: vec![
                BundleContentKind::FullBoundaryCapture,
                BundleContentKind::DecisionReceiptChain,
                BundleContentKind::StateSnapshot,
                BundleContentKind::ExecutionTrace,
                BundleContentKind::PolicyEvaluationLog,
                BundleContentKind::ReplayInputs,
            ],
            emergency_content: vec![
                BundleContentKind::FullBoundaryCapture,
                BundleContentKind::DecisionReceiptChain,
                BundleContentKind::StateSnapshot,
                BundleContentKind::ExecutionTrace,
                BundleContentKind::HeapProfile,
                BundleContentKind::PolicyEvaluationLog,
                BundleContentKind::ReplayInputs,
            ],
        };
        proof {
            assert forall|k: EscalationTriggerKind|
                #[trigger] r.always_escalate.has(k) == (k == EscalationTriggerKind::UserVisibleFailure
                    || k == EscalationTriggerKind::PolicyViolation) by {
                if k == EscalationTriggerKind::UserVisibleFailure {
                    assert(listed[0] == k);
                }
                if k == EscalationTriggerKind::PolicyViolation {
                    assert(listed[1] == k);
                }
            }
            assert(r.advisory_content@ =~= default_advisory());
            assert(r.warning_content@ =~= default_warning());
            assert(r.critical_content@ =~= default_critical());
            assert(r.emergency_content@ =~= default_emergency());
        }
        r
    }
}

// ---------------------------------------------------------------------------
// Costs
// ---------------------------------------------------------------------------

/// Severity-adjusted cost of one content kind (millionths).
pub open spec fn adjusted_cost(kind: BundleContentKind, severity: TriggerSeverity) -> u64 {
    (sat_mul_spec(kind.base_cost(), severity.multiplier()) / MILLION) as u64
}

fn adjusted_cost_exec(kind: BundleContentKind, severity: TriggerSeverity) -> (r: u64)
    ensures
        r == adjusted_cost(kind, severity),
        r <= 120_000,
{
    let r = sat_mul(kind.base_cost_millionths(), severity.cost_multiplier_millionths()) / MILLION;
    assert(kind.base_cost() * severity.multiplier() <= 120_000 * 1_000_000) by (nonlinear_arith)
        requires
            kind.base_cost() <= 120_000,
            severity.multiplier() <= 1_000_000,
    ;
    r
}

/// Sum of the adjusted costs of some content kinds.
pub open spec fn content_cost(c: Seq<BundleContentKind>, severity: TriggerSeverity) -> nat
    decreases c.len(),
{
    if c.len() == 0 {
        0
    } else {
        content_cost(c.drop_last(), severity) + (adjusted_cost(c.last(), severity) as nat)
    }
}

/// A total clamped at `u64::MAX`.
pub open spec fn clamp_u64(n: nat) -> u64 {
    if n > u64::MAX {
        u64::MAX
    } else {
        n as u64
    }
}

/// How a content kind is redacted at a severity: boundary captures, state
/// snapshots and heap profiles are digest-only below Emergency.
pub open spec fn redaction_for(kind: BundleContentKind, severity: TriggerSeverity) -> RedactionTreatment {
    match kind {
        BundleContentKind::FullBoundaryCapture | BundleContentKind::StateSnapshot
        | BundleContentKind::HeapProfile => if severity == TriggerSeverity::Emergency {
            RedactionTreatment::Plaintext
        } else {
            RedactionTreatment::DigestOnly
        },
        _ => RedactionTreatment::Plaintext,
    }
}

/// The entry a bundle holds for one content kind.
pub open spec fn entry_matches(
    e: BundleContentEntry,
    trigger_id: Seq<char>,
    severity: TriggerSeverity,
    kind: BundleContentKind,
) -> bool {
    &&& e.kind == kind
    &&& e.content_digest@ == sha256_digest(utf8(trigger_id + "-"@ + kind.name()))
    &&& e.redaction == redaction_for(kind, severity)
    &&& e.size_bytes == adjusted_cost(kind, severity) * 1024
    &&& e.complete
}

/// The bundle built for a trigger.
pub open spec fn bundle_matches(
    b: EscalationBundle,
    trigger_id: Seq<char>,
    severity: TriggerSeverity,
    content: Seq<BundleContentKind>,
    boundaries: Seq<BoundaryClass>,
    epoch: SecurityEpoch,
) -> bool {
    &&& b.bundle_id@ == "bundle-"@ + trigger_id
    &&& b.trigger_id@ == trigger_id
    &&& b.entries@.len() == content.len()
    &&& forall|i: int|
        0 <= i < content.len() ==> entry_matches(#[trigger] b.entries@[i], trigger_id, severity, content[i])
    &&& forall|c: BoundaryClass| #[trigger] b.covered_boundaries.has(c) == boundaries.contains(c)
    &&& b.total_cost_millionths == clamp_u64(content_cost(content, severity))
    &&& b.bundle_epoch == epoch
    &&& b.bundle_hash@ == sha256_digest(b.hash_input())
}

// ---------------------------------------------------------------------------
// EscalationPipeline
// ---------------------------------------------------------------------------

/// Concatenated trigger hashes.
pub open spec fn trigger_hash_bytes(s: Seq<EscalationTrigger>) -> Seq<u8>
    decreases s.len(),
{
    if s.len() == 0 {
        Seq::empty()
    } else {
        trigger_hash_bytes(s.drop_last()) + s.last().trigger_hash@
    }
}

/// Concatenated receipt hashes.
pub open spec fn receipt_hash_bytes(s: Seq<EscalationReceipt>) -> Seq<u8>
    decreases s.len(),
{
    if s.len() == 0 {
        Seq::empty()
    } else {
        receipt_hash_bytes(s.drop_last()) + s.last().receipt_hash@
    }
}

/// Concatenated bundle hashes.
pub open spec fn bundle_hash_bytes(s: Seq<EscalationBundle>) -> Seq<u8>
    decreases s.len(),
{
    if s.len() == 0 {
        Seq::empty()
    } else {
        bundle_hash_bytes(s.drop_last()) + s.last().bundle_hash@
    }
}

/// Orchestrates escalation decisions for a stream of triggers.
#[derive(Debug, Clone, PartialEq, Eq)]
pub struct EscalationPipeline {
    pub schema_version: String,
    pub bead_id: String,
    /// The escalation policy in effect.
    pub policy: EscalationPolicy,
    /// All triggers processed so far.
    pub triggers: Vec<EscalationTrigger>,
    /// All receipts generated.
    pub receipts: Vec<EscalationReceipt>,
    /// All bundles produced.
    pub bundles: Vec<EscalationBundle>,
    /// Remaining cost budget (millionths).
    pub remaining_budget_millionths: u64,
    pub pipeline_epoch: SecurityEpoch,
    /// Content hash of the pipeline.
    pub pipeline_hash: ContentHash,
}

/// Rationale text for a decision.
pub open spec fn within_budget_text(
    severity: TriggerSeverity,
    within: bool,
    cost: nat,
    remaining: u64,
) -> Seq<char> {
    severity.name() + (if within {
        " trigger within budget (cost: "@
    } else {
        " trigger exceeds budget (cost: "@
    }) + decimal(cost) + ", remaining: "@ + decimal(remaining as nat) + ")"@
}

impl EscalationPipeline {
    /// Bytes hashed into the pipeline hash.
    pub open spec fn hash_input(self) -> Seq<u8> {
        utf8(self.schema_version@) + utf8(self.bead_id@) + trigger_hash_bytes(self.triggers@)
            + receipt_hash_bytes(self.receipts@) + bundle_hash_bytes(self.bundles@) + u64_le(
            self.remaining_budget_millionths,
        ) + u64_le(self.pipeline_epoch.0)
    }

    /// Whether deciding on a trigger needs the budget estimate.
    pub open spec fn needs_estimate(self, kind: EscalationTriggerKind, severity: TriggerSeverity) -> bool {
        &&& !self.policy.always_suppress.has(kind)
        &&& !self.policy.always_escalate.has(kind)
        &&& severity.level() < self.policy.auto_escalate_threshold.level()
    }

    /// The decision and its rationale for a trigger kind and severity:
    /// always-suppress, then always-escalate, then the severity threshold
    /// (deferring when the budget is exhausted), then the budget estimate.
    pub open spec fn decide_spec(self, kind: EscalationTriggerKind, severity: TriggerSeverity) -> (
        EscalationDecision,
        Seq<char>,
    ) {
        let remaining = self.remaining_budget_millionths;
        if self.policy.always_suppress.has(kind) {
            (EscalationDecision::Suppress, kind.name() + " is in always-suppress list"@)
        } else if self.policy.always_escalate.has(kind) {
            (EscalationDecision::Escalate, kind.name() + " is in always-escalate list"@)
        } else if severity.level() >= self.policy.auto_escalate_threshold.level() {
            if remaining > 0 {
                (
                    EscalationDecision::Escalate,
                    severity.name() + " severity meets auto-escalate threshold"@,
                )
            } else {
                (
                    EscalationDecision::Defer,
                    severity.name() + " severity meets threshold but budget exhausted — deferred"@,
                )
            }
        } else {
            let cost = content_cost(self.policy.content_spec(severity), severity);
            if cost <= remaining {
                (
                    EscalationDecision::Escalate,
                    within_budget_text(severity, true, cost, remaining),
                )
            } else {
                (
                    EscalationDecision::Defer,
                    within_budget_text(severity, false, cost, remaining),
                )
            }
        }
    }

    fn recompute_hash(&mut self)
        ensures
            final(self).schema_version == old(self).schema_version,
            final(self).bead_id == old(self).bead_id,
            final(self).policy == old(self).policy,
            final(self).triggers == old(self).triggers,
            final(self).receipts == old(self).receipts,
            final(self).bundles == old(self).bundles,
            final(self).remaining_budget_millionths == old(self).remaining_budget_millionths,
            final(self).pipeline_epoch == old(self).pipeline_epoch,
            final(self).pipeline_hash@ == sha256_digest(old(self).hash_input()),
    {
        let mut data: Vec<u8> = Vec::new();
        push_str(&mut data, self.schema_version.as_str());
        push_str(&mut data, self.bead_id.as_str());
        let ghost h0 = data@;
        let mut i: usize = 0;
        while i < self.triggers.len()
            invariant
                i <= self.triggers@.len(),
                data@ == h0 + trigger_hash_bytes(self.triggers@.take(i as int)),
            decreases self.triggers@.len() - i,
        {
            push_bytes(&mut data, self.triggers[i].trigger_hash.as_bytes());
            proof {
                assert(self.triggers@.take(i + 1).drop_last() =~= self.triggers@.take(i as int));
                assert(data@ =~= h0 + trigger_hash_bytes(self.triggers@.take(i + 1)));
            }
            i = i + 1;
        }
        assert(self.triggers@.take(i as int) =~= self.triggers@);
        let ghost h1 = data@;
        let mut i: usize = 0;
        while i < self.receipts.len()
            invariant
                i <= self.receipts@.len(),
                data@ == h1 + receipt_hash_bytes(self.receipts@.take(i as int)),
            decreases self.receipts@.len() - i,
        {
            push_bytes(&mut data, self.receipts[i].receipt_hash.as_bytes());
            proof {
                assert(self.receipts@.take(i + 1).drop_last() =~= self.receipts@.take(i as int));
                assert(data@ =~= h1 + receipt_hash_bytes(self.receipts@.take(i + 1)));
            }
            i = i + 1;
        }
        assert(self.receipts@.take(i as int) =~= self.receipts@);
        let ghost h2 = data@;
        let mut i: usize = 0;
        while i < self.bundles.len()
            invariant
                i <= self.bundles@.len(),
                data@ == h2 + bundle_hash_bytes(self.bundles@.take(i as int)),
            decreases self.bundles@.len() - i,
        {
            push_bytes(&mut data, self.bundles[i].bundle_hash.as_bytes());
            proof {
                assert(self.bundles@.take(i + 1).drop_last() =~= self.bundles@.take(i as int));
                assert(data@ =~= h2 + bundle_hash_bytes(self.bundles@.take(i + 1)));
            }
            i = i + 1;
        }
        assert(self.bundles@.take(i as int) =~= self.bundles@);
        push_u64_le(&mut data, self.remaining_budget_millionths);
        push_u64_le(&mut data, self.pipeline_epoch.as_u64());
        assert(data@ =~= self.hash_input());
        self.pipeline_hash = ContentHash::compute(data.as_slice());
    }

    /// Create a pipeline with the policy's full budget and no history.
    pub fn new(policy: EscalationPolicy, epoch: SecurityEpoch) -> (r: Self)
        ensures
            r.schema_version@ == ESCALATION_SCHEMA_VERSION@,
            r.bead_id@ == ESCALATION_BEAD_ID@,
            r.policy == policy,
            r.triggers@.len() == 0,
            r.receipts@.len() == 0,
            r.bundles@.len() == 0,
            r.remaining_budget_millionths == policy.cost_budget_millionths,
            r.pipeline_epoch == epoch,
            r.pipeline_hash@ == sha256_digest(r.hash_input()),
    {
        let budget = policy.cost_budget_millionths;
        let mut pipeline = EscalationPipeline {
            schema_version: owned(ESCALATION_SCHEMA_VERSION),
            bead_id: owned(ESCALATION_BEAD_ID),
            policy,
            triggers: Vec::new(),
            receipts: Vec::new(),
            bundles: Vec::new(),
            remaining_budget_millionths: budget,
            pipeline_epoch: epoch,
            pipeline_hash: ContentHash::compute(COMPONENT.as_bytes()),
        };
        pipeline.recompute_hash();
        pipeline
    }

    /// Decide whether to escalate for a given trigger kind and severity.
    fn decide(&self, kind: EscalationTriggerKind, severity: TriggerSeverity) -> (r: (
        EscalationDecision,
        String,
    ))
        requires
            self.needs_estimate(kind, severity) ==> content_cost(
                self.policy.content_spec(severity),
                severity,
            ) <= u64::MAX,
        ensures
            r.0 == self.decide_spec(kind, severity).0,
            r.1@ == self.decide_spec(kind, severity).1,
    {
        if self.policy.always_suppress.contains(&kind) {
            let mut s = owned(kind.as_str());
            s.append(" is in always-suppress list");
            return (EscalationDecision::Suppress, s);
        }
        if self.policy.always_escalate.contains(&kind) {
            let mut s = owned(kind.as_str());
            s.append(" is in always-escalate list");
            return (EscalationDecision::Escalate, s);
        }
        if severity.level_exec() >= self.policy.auto_escalate_threshold.level_exec() {
            let mut s = owned(severity.as_str());
            if self.remaining_budget_millionths > 0 {
                s.append(" severity meets auto-escalate threshold");
                return (EscalationDecision::Escalate, s);
            }
            s.append(" severity meets threshold but budget exhausted — deferred");
            return (EscalationDecision::Defer, s);
        }
        let content = self.policy.content_for_severity(severity);
        let mut estimated: u64 = 0;
        let mut i: usize = 0;
        while i < content.len()
            invariant
                i <= content@.len(),
                content@ == self.policy.content_spec(severity),
                content_cost(content@, severity) <= u64::MAX,
                estimated == content_cost(content@.take(i as int), severity),
            decreases content@.len() - i,
        {
            proof {
                assert(content@.take(i + 1).drop_last() =~= content@.take(i as int));
                lemma_content_cost_prefix(content@, severity, i + 1);
            }
            estimated = estimated + adjusted_cost_exec(content[i], severity);
            i = i + 1;
        }
        assert(content@.take(i as int) =~= content@);
        let remaining = self.remaining_budget_millionths;
        let mut s = owned(severity.as_str());
        if estimated <= remaining {
            s.append(" trigger within budget (cost: ");
        } else {
            s.append(" trigger exceeds budget (cost: ");
        }
        s.append(u64_to_decimal(estimated).as_str());
        s.append(", remaining: ");
        s.append(u64_to_decimal(remaining).as_str());
        s.append(")");
        if estimated <= remaining {
            (EscalationDecision::Escalate, s)
        } else {
            (EscalationDecision::Defer, s)
        }
    }

    /// Build a bundle for an escalation.
    fn build_bundle(
        &self,
        trigger_id: &str,
        severity: TriggerSeverity,
        relevant_boundaries: &Vec<BoundaryClass>,
    ) -> (r: EscalationBundle)
        ensures
            bundle_matches(
                r,
                trigger_id@,
                severity,
                self.policy.content_spec(severity),
                relevant_boundaries@,
                self.pipeline_epoch,
            ),
    {
        let content = self.policy.content_for_severity(severity);
        let mut entries: Vec<BundleContentEntry> = Vec::new();
        let mut total: u64 = 0;
        let mut i: usize = 0;
        while i < content.len()
            invariant
                i <= content@.len(),
                entries@.len() == i,
                forall|j: int|
                    0 <= j < i ==> entry_matches(#[trigger] entries@[j], trigger_id@, severity, content@[j]),
                total == clamp_u64(content_cost(content@.take(i as int), severity)),
            decreases content@.len() - i,
        {
            let kind = content[i];
            let adjusted = adjusted_cost_exec(kind, severity);
            let redaction = match kind {
                BundleContentKind::FullBoundaryCapture | BundleContentKind::StateSnapshot
                | BundleContentKind::HeapProfile => {
                    if severity == TriggerSeverity::Emergency {
                        RedactionTreatment::Plaintext
                    } else {
                        RedactionTreatment::DigestOnly
                    }
                },
                _ => RedactionTreatment::Plaintext,
            };
            let mut label = owned(trigger_id);
            label.append("-");
            label.append(kind.as_str());
            let mut bytes: Vec<u8> = Vec::new();
            push_str(&mut bytes, label.as_str());
            entries.push(
                BundleContentEntry {
                    kind,
                    content_digest: ContentHash::compute(bytes.as_slice()),
                    redaction,
                    size_bytes: adjusted * 1024,
                    complete: true,
                },
            );
            proof {
                assert(content@.take(i + 1).drop_last() =~= content@.take(i as int));
            }
            total = total.saturating_add(adjusted);
            i = i + 1;
        }
        assert(content@.take(i as int) =~= content@);
        let covered = EnumSet::from_slice(relevant_boundaries.as_slice());
        let mut bundle_id = owned("bundle-");
        bundle_id.append(trigger_id);
        let mut bundle = EscalationBundle {
            bundle_id,
            trigger_id: owned(trigger_id),
            entries,
            covered_boundaries: covered,
            total_cost_millionths: total,
            bundle_epoch: self.pipeline_epoch,
            bundle_hash: ContentHash::compute(COMPONENT.as_bytes()),
        };
        bundle.recompute_hash();
        bundle
    }
}

proof fn lemma_content_cost_prefix(c: Seq<BundleContentKind>, severity: TriggerSeverity, i: int)
    requires
        0 <= i <= c.len(),
    ensures
        content_cost(c.take(i), severity) <= content_cost(c, severity),
    decreases c.len(),
{
    if i < c.len() {
        assert(c.drop_last().take(i) =~= c.take(i));
        lemma_content_cost_prefix(c.drop_last(), severity, i);
    } else {
        assert(c.take(i) =~= c);
    }
}

// ---------------------------------------------------------------------------
// Processing triggers
// ---------------------------------------------------------------------------

/// `a - b`, floored at zero.
pub open spec fn sat_sub(a: u64, b: u64) -> u64 {
    if a >= b {
        (a - b) as u64
    } else {
        0
    }
}

/// Receipts with a given decision, in order.
pub open spec fn receipts_with(s: Seq<EscalationReceipt>, d: EscalationDecision) -> Seq<
    EscalationReceipt,
>
    decreases s.len(),
{
    if s.len() == 0 {
        Seq::empty()
    } else {
        let rest = receipts_with(s.drop_last(), d);
        if s.last().decision == d {
            rest.push(s.last())
        } else {
            rest
        }
    }
}

impl EscalationPipeline {
    /// Inputs on which processing a trigger runs without overflow.
    pub open spec fn can_process(self, t: EscalationTrigger) -> bool {
        self.needs_estimate(t.kind, t.severity) ==> content_cost(
            self.policy.content_spec(t.severity),
            t.severity,
        ) <= u64::MAX
    }

    /// `next` is this pipeline after processing trigger `t`: the trigger is
    /// recorded with its hash, a bundle is built and charged to the budget
    /// exactly when the decision is Escalate, and a hashed receipt records the
    /// decision, its rationale and the budget before it.
    pub open spec fn processed(self, next: EscalationPipeline, t: EscalationTrigger) -> bool {
        let d = self.decide_spec(t.kind, t.severity);
        let tid = t.trigger_id@;
        let escalate = d.0 == EscalationDecision::Escalate;
        let receipt = next.receipts@.last();
        &&& next.schema_version == self.schema_version
        &&& next.bead_id == self.bead_id
        &&& next.policy == self.policy
        &&& next.pipeline_epoch == self.pipeline_epoch
        &&& next.triggers@.len() == self.triggers@.len() + 1
        &&& next.triggers@.drop_last() == self.triggers@
        &&& next.triggers@.last().same_but_hash(t)
        &&& next.triggers@.last().trigger_hash@ == sha256_digest(t.hash_input())
        &&& if escalate {
            &&& next.bundles@.len() == self.bundles@.len() + 1
            &&& next.bundles@.drop_last() == self.bundles@
            &&& bundle_matches(
                next.bundles@.last(),
                tid,
                t.severity,
                self.policy.content_spec(t.severity),
                t.relevant_boundaries@,
                self.pipeline_epoch,
            )
            &&& next.remaining_budget_millionths == sat_sub(
                self.remaining_budget_millionths,
                next.bundles@.last().total_cost_millionths,
            )
        } else {
            &&& next.bundles@ == self.bundles@
            &&& next.remaining_budget_millionths == self.remaining_budget_millionths
        }
        &&& next.receipts@.len() == self.receipts@.len() + 1
        &&& next.receipts@.drop_last() == self.receipts@
        &&& receipt.receipt_id@ == "receipt-"@ + tid
        &&& receipt.trigger_id@ == tid
        &&& receipt.decision == d.0
        &&& receipt.bundle_id is Some == escalate
        &&& (receipt.bundle_id matches Some(b) ==> b@ == "bundle-"@ + tid)
        &&& receipt.rationale@ == d.1
        &&& receipt.cost_budget_millionths == self.remaining_budget_millionths
        &&& receipt.cost_consumed_millionths == if escalate {
            next.bundles@.last().total_cost_millionths
        } else {
            0
        }
        &&& receipt.receipt_epoch == self.pipeline_epoch
        &&& receipt.receipt_hash@ == sha256_digest(receipt.hash_input())
        &&& next.pipeline_hash@ == sha256_digest(next.hash_input())
    }

    /// Process a trigger and decide whether to escalate; returns the receipt.
    #[verifier::rlimit(60)]
    pub fn process_trigger(&mut self, trigger: EscalationTrigger) -> (r: &EscalationReceipt)
        requires
            old(self).can_process(trigger),
        ensures
            old(self).processed(*final(self), trigger),
            *r == final(self).receipts@.last(),
    {
        let mut trigger = trigger;
        let ghost original = trigger;
        trigger.recompute_hash();
        let trigger_id = trigger.trigger_id.clone();
        let severity = trigger.severity;
        let kind = trigger.kind;
        let (decision, rationale) = self.decide(kind, severity);
        let budget_before = self.remaining_budget_millionths;
        let mut bundle_id: Option<String> = None;
        let mut cost_consumed: u64 = 0;
        let ghost old_bundles = self.bundles@;
        if decision == EscalationDecision::Escalate {
            let bundle = self.build_bundle(trigger_id.as_str(), severity, &trigger.relevant_boundaries);
            let cost = bundle.total_cost_millionths;
            let bid = bundle.bundle_id.clone();
            self.bundles.push(bundle);
            self.remaining_budget_millionths = self.remaining_budget_millionths.saturating_sub(cost);
            bundle_id = Some(bid);
            cost_consumed = cost;
        }
        self.triggers.push(trigger);
        let mut receipt_id = owned("receipt-");
        receipt_id.append(trigger_id.as_str());
        let mut receipt = EscalationReceipt {
            receipt_id,
            trigger_id,
            decision,
            bundle_id,
            rationale,
            cost_budget_millionths: budget_before,
            cost_consumed_millionths: cost_consumed,
            receipt_epoch: self.pipeline_epoch,
            receipt_hash: ContentHash::compute(COMPONENT.as_bytes()),
        };
        receipt.recompute_hash();
        self.receipts.push(receipt);
        self.recompute_hash();
        proof {
            let pre = *old(self);
            let next = *self;
            assert(next.triggers@.drop_last() =~= pre.triggers@);
            assert(next.receipts@.drop_last() =~= pre.receipts@);
            assert(next.triggers@.last().same_but_hash(original));
            assert(next.triggers@.last().trigger_hash@ == sha256_digest(original.hash_input()));
            if decision == EscalationDecision::Escalate {
                assert(next.bundles@.drop_last() =~= pre.bundles@);
            }
            assert(next.receipts@.last().receipt_id@ == "receipt-"@ + original.trigger_id@);
            assert(next.receipts@.last().receipt_hash@ == sha256_digest(next.receipts@.last().hash_input()));
            assert(next.pipeline_hash@ == sha256_digest(next.hash_input()));
        }
        let n = self.receipts.len();
        &self.receipts[n - 1]
    }

    fn receipts_by_decision(&self, d: EscalationDecision) -> (r: Vec<&EscalationReceipt>)
        ensures
            r@.map_values(|p: &EscalationReceipt| *p) == receipts_with(self.receipts@, d),
    {
        let mut out: Vec<&EscalationReceipt> = Vec::new();
        let mut i: usize = 0;
        while i < self.receipts.len()
            invariant
                i <= self.receipts@.len(),
                out@.map_values(|p: &EscalationReceipt| *p) == receipts_with(
                    self.receipts@.take(i as int),
                    d,
                ),
            decreases self.receipts@.len() - i,
        {
            if self.receipts[i].decision == d {
                out.push(&self.receipts[i]);
            }
            proof {
                assert(self.receipts@.take(i + 1).drop_last() =~= self.receipts@.take(i as int));
                assert(out@.map_values(|p: &EscalationReceipt| *p) =~= receipts_with(
                    self.receipts@.take(i + 1),
                    d,
                ));
            }
            i = i + 1;
        }
        assert(self.receipts@.take(i as int) =~= self.receipts@);
        out
    }

    /// All escalated receipts, in order.
    pub fn escalated_receipts(&self) -> (r: Vec<&EscalationReceipt>)
        ensures
            r@.map_values(|p: &EscalationReceipt| *p) == receipts_with(
                self.receipts@,
                EscalationDecision::Escalate,
            ),
    {
        self.receipts_by_decision(EscalationDecision::Escalate)
    }

    /// All suppressed receipts, in order.
    pub fn suppressed_receipts(&self) -> (r: Vec<&EscalationReceipt>)
        ensures
            r@.map_values(|p: &EscalationReceipt| *p) == receipts_with(
                self.receipts@,
                EscalationDecision::Suppress,
            ),
    {
        self.receipts_by_decision(EscalationDecision::Suppress)
    }

    /// All deferred receipts, in order.
    pub fn deferred_receipts(&self) -> (r: Vec<&EscalationReceipt>)
        ensures
            r@.map_values(|p: &EscalationReceipt| *p) == receipts_with(
                self.receipts@,
                EscalationDecision::Defer,
            ),
    {
        self.receipts_by_decision(EscalationDecision::Defer)
    }

    /// The first bundle built for a trigger, if any.
    pub fn bundle_for_trigger(&self, trigger_id: &str) -> (r: Option<&EscalationBundle>)
        ensures
            match r {
                Some(b) => exists|i: int|
                    0 <= i < self.bundles@.len() && self.bundles@[i] == *b && b.trigger_id@
                        == trigger_id@ && forall|j: int|
                        0 <= j < i ==> (#[trigger] self.bundles@[j]).trigger_id@ != trigger_id@,
                None => forall|i: int|
                    0 <= i < self.bundles@.len() ==> (#[trigger] self.bundles@[i]).trigger_id@
                        != trigger_id@,
            },
    {
        let mut i: usize = 0;
        while i < self.bundles.len()
            invariant
                i <= self.bundles@.len(),
                forall|j: int|
                    0 <= j < i ==> (#[trigger] self.bundles@[j]).trigger_id@ != trigger_id@,
            decreases self.bundles@.len() - i,
        {
            if str_eq(self.bundles[i].trigger_id.as_str(), trigger_id) {
                return Some(&self.bundles[i]);
            }
            i = i + 1;
        }
        None
    }
}

// ---------------------------------------------------------------------------
// EscalationSummary
// ---------------------------------------------------------------------------

/// Number of triggers of a kind.
pub open spec fn count_kind(ts: Seq<EscalationTrigger>, k: EscalationTriggerKind) -> nat
    decreases ts.len(),
{
    if ts.len() == 0 {
        0
    } else {
        count_kind(ts.drop_last(), k) + if ts.last().kind == k {
            1nat
        } else {
            0nat
        }
    }
}

/// Number of triggers of a severity.
pub open spec fn count_severity(ts: Seq<EscalationTrigger>, v: TriggerSeverity) -> nat
    decreases ts.len(),
{
    if ts.len() == 0 {
        0
    } else {
        count_severity(ts.drop_last(), v) + if ts.last().severity == v {
            1nat
        } else {
            0nat
        }
    }
}

/// `(kind, count)` for the first `n` kinds in canonical order that occur.
pub open spec fn kind_rows(ts: Seq<EscalationTrigger>, n: nat) -> Seq<(EscalationTriggerKind, usize)>
    decreases n,
{
    if n == 0 {
        Seq::empty()
    } else {
        let rest = kind_rows(ts, (n - 1) as nat);
        let k = EscalationTriggerKind::of_rank((n - 1) as nat);
        let c = count_kind(ts, k);
        if c > 0 {
            rest.push((k, c as usize))
        } else {
            rest
        }
    }
}

/// `(severity, count)` for the first `n` severities in ascending order that occur.
pub open spec fn severity_rows(ts: Seq<EscalationTrigger>, n: nat) -> Seq<(TriggerSeverity, usize)>
    decreases n,
{
    if n == 0 {
        Seq::empty()
    } else {
        let rest = severity_rows(ts, (n - 1) as nat);
        let v = TriggerSeverity::at(n - 1);
        let c = count_severity(ts, v);
        if c > 0 {
            rest.push((v, c as usize))
        } else {
            rest
        }
    }
}

/// Bytes hashed for kind rows: the kind's variant name, then the count.
pub open spec fn kind_rows_bytes(rows: Seq<(EscalationTriggerKind, usize)>) -> Seq<u8>
    decreases rows.len(),
{
    if rows.len() == 0 {
        Seq::empty()
    } else {
        kind_rows_bytes(rows.drop_last()) + utf8(rows.last().0.debug_name()) + u64_le(
            rows.last().1 as u64,
        )
    }
}

/// Bytes hashed for severity rows: the severity's variant name, then the count.
pub open spec fn severity_rows_bytes(rows: Seq<(TriggerSeverity, usize)>) -> Seq<u8>
    decreases rows.len(),
{
    if rows.len() == 0 {
        Seq::empty()
    } else {
        severity_rows_bytes(rows.drop_last()) + utf8(rows.last().0.debug_name()) + u64_le(
            rows.last().1 as u64,
        )
    }
}

/// Sum of bundle costs.
pub open spec fn bundle_cost_sum(s: Seq<EscalationBundle>) -> nat
    decreases s.len(),
{
    if s.len() == 0 {
        0
    } else {
        bundle_cost_sum(s.drop_last()) + (s.last().total_cost_millionths as nat)
    }
}

proof fn lemma_bundle_cost_prefix(s: Seq<EscalationBundle>, i: int)
    requires
        0 <= i <= s.len(),
    ensures
        bundle_cost_sum(s.take(i)) <= bundle_cost_sum(s),
    decreases s.len(),
{
    if i < s.len() {
        assert(s.drop_last().take(i) =~= s.take(i));
        lemma_bundle_cost_prefix(s.drop_last(), i);
    } else {
        assert(s.take(i) =~= s);
    }
}

proof fn lemma_count_kind_le(ts: Seq<EscalationTrigger>, k: EscalationTriggerKind)
    ensures
        count_kind(ts, k) <= ts.len(),
    decreases ts.len(),
{
    if ts.len() > 0 {
        lemma_count_kind_le(ts.drop_last(), k);
    }
}

proof fn lemma_count_severity_le(ts: Seq<EscalationTrigger>, v: TriggerSeverity)
    ensures
        count_severity(ts, v) <= ts.len(),
    decreases ts.len(),
{
    if ts.len() > 0 {
        lemma_count_severity_le(ts.drop_last(), v);
    }
}

/// Summary report of escalation pipeline activity.
#[derive(Debug, Clone, PartialEq, Eq)]
pub struct EscalationSummary {
    pub total_triggers: usize,
    pub escalated_count: usize,
    pub suppressed_count: usize,
    pub deferred_count: usize,
    pub total_bundles: usize,
    pub total_cost_millionths: u64,
    pub budget_utilization_millionths: u64,
    pub remaining_budget_millionths: u64,
    pub triggers_by_kind: Vec<(EscalationTriggerKind, usize)>,
    pub triggers_by_severity: Vec<(TriggerSeverity, usize)>,
    pub pipeline_epoch: SecurityEpoch,
    pub summary_hash: ContentHash,
}

impl EscalationSummary {
    /// Bytes hashed into the summary hash.
    pub open spec fn hash_input(self) -> Seq<u8> {
        u64_le(self.total_triggers as u64) + u64_le(self.escalated_count as u64) + u64_le(
            self.suppressed_count as u64,
        ) + u64_le(self.deferred_count as u64) + u64_le(self.total_bundles as u64) + u64_le(
            self.total_cost_millionths,
        ) + u64_le(self.budget_utilization_millionths) + u64_le(self.remaining_budget_millionths)
            + kind_rows_bytes(self.triggers_by_kind@) + severity_rows_bytes(
            self.triggers_by_severity@,
        ) + u64_le(self.pipeline_epoch.0)
    }
}

fn count_triggers_of_kind(ts: &Vec<EscalationTrigger>, k: EscalationTriggerKind) -> (r: usize)
    ensures
        r == count_kind(ts@, k),
{
    let mut c: usize = 0;
    let mut i: usize = 0;
    while i < ts.len()
        invariant
            i <= ts@.len(),
            c == count_kind(ts@.take(i as int), k),
            c <= i,
        decreases ts@.len() - i,
    {
        proof {
            assert(ts@.take(i + 1).drop_last() =~= ts@.take(i as int));
        }
        if ts[i].kind == k {
            c = c + 1;
        }
        i = i + 1;
    }
    assert(ts@.take(i as int) =~= ts@);
    c
}

fn count_triggers_of_severity(ts: &Vec<EscalationTrigger>, v: TriggerSeverity) -> (r: usize)
    ensures
        r == count_severity(ts@, v),
{
    let mut c: usize = 0;
    let mut i: usize = 0;
    while i < ts.len()
        invariant
            i <= ts@.len(),
            c == count_severity(ts@.take(i as int), v),
            c <= i,
        decreases ts@.len() - i,
    {
        proof {
            assert(ts@.take(i + 1).drop_last() =~= ts@.take(i as int));
        }
        if ts[i].severity == v {
            c = c + 1;
        }
        i = i + 1;
    }
    assert(ts@.take(i as int) =~= ts@);
    c
}

impl EscalationPipeline {
    /// Generate a summary report.
    pub fn summary_report(&self) -> (r: EscalationSummary)
        requires
            bundle_cost_sum(self.bundles@) <= u64::MAX,
        ensures
            r.total_triggers == self.triggers@.len(),
            r.escalated_count == receipts_with(self.receipts@, EscalationDecision::Escalate).len(),
            r.suppressed_count == receipts_with(self.receipts@, EscalationDecision::Suppress).len(),
            r.deferred_count == receipts_with(self.receipts@, EscalationDecision::Defer).len(),
            r.total_bundles == self.bundles@.len(),
            r.total_cost_millionths == bundle_cost_sum(self.bundles@),
            r.budget_utilization_millionths == ratio_millionths(
                r.total_cost_millionths,
                self.policy.cost_budget_millionths,
            ),
            r.remaining_budget_millionths == self.remaining_budget_millionths,
            r.triggers_by_kind@ == kind_rows(self.triggers@, 7),
            r.triggers_by_severity@ == severity_rows(self.triggers@, 4),
            r.pipeline_epoch == self.pipeline_epoch,
            r.summary_hash@ == sha256_digest(r.hash_input()),
    {
        let total_triggers = self.triggers.len();
        let escalated = self.escalated_receipts().len();
        let suppressed = self.suppressed_receipts().len();
        let deferred = self.deferred_receipts().len();
        let total_bundles = self.bundles.len();
        let mut total_cost: u64 = 0;
        let mut i: usize = 0;
        while i < self.bundles.len()
            invariant
                i <= self.bundles@.len(),
                bundle_cost_sum(self.bundles@) <= u64::MAX,
                total_cost == bundle_cost_sum(self.bundles@.take(i as int)),
            decreases self.bundles@.len() - i,
        {
            proof {
                assert(self.bundles@.take(i + 1).drop_last() =~= self.bundles@.take(i as int));
                lemma_bundle_cost_prefix(self.bundles@, i + 1);
            }
            total_cost = total_cost + self.bundles[i].total_cost_millionths;
            i = i + 1;
        }
        assert(self.bundles@.take(i as int) =~= self.bundles@);
        let utilization = ratio(total_cost, self.policy.cost_budget_millionths);
        let mut by_kind: Vec<(EscalationTriggerKind, usize)> = Vec::new();
        let mut n: usize = 0;
        while n < 7
            invariant
                n <= 7,
                by_kind@ == kind_rows(self.triggers@, n as nat),
            decreases 7 - n,
        {
            let kind = EscalationTriggerKind::from_rank(n);
            let count = count_triggers_of_kind(&self.triggers, kind);
            if count > 0 {
                by_kind.push((kind, count));
            }
            n = n + 1;
        }
        let mut by_severity: Vec<(TriggerSeverity, usize)> = Vec::new();
        let mut n: usize = 0;
        while n < 4
            invariant
                n <= 4,
                by_severity@ == severity_rows(self.triggers@, n as nat),
            decreases 4 - n,
        {
            let severity = TriggerSeverity::ALL[n];
            let count = count_triggers_of_severity(&self.triggers, severity);
            if count > 0 {
                by_severity.push((severity, count));
            }
            n = n + 1;
        }
        let mut data: Vec<u8> = Vec::new();
        push_u64_le(&mut data, total_triggers as u64);
        push_u64_le(&mut data, escalated as u64);
        push_u64_le(&mut data, suppressed as u64);
        push_u64_le(&mut data, deferred as u64);
        push_u64_le(&mut data, total_bundles as u64);
        push_u64_le(&mut data, total_cost);
        push_u64_le(&mut data, utilization);
        push_u64_le(&mut data, self.remaining_budget_millionths);
        let ghost h0 = data@;
        let mut k: usize = 0;
        while k < by_kind.len()
            invariant
                k <= by_kind@.len(),
                data@ == h0 + kind_rows_bytes(by_kind@.take(k as int)),
            decreases by_kind@.len() - k,
        {
            push_str(&mut data, by_kind[k].0.debug_str());
            push_u64_le(&mut data, by_kind[k].1 as u64);
            proof {
                assert(by_kind@.take(k + 1).drop_last() =~= by_kind@.take(k as int));
                assert(data@ =~= h0 + kind_rows_bytes(by_kind@.take(k + 1)));
            }
            k = k + 1;
        }
        assert(by_kind@.take(k as int) =~= by_kind@);
        let ghost h1 = data@;
        let mut k: usize = 0;
        while k < by_severity.len()
            invariant
                k <= by_severity@.len(),
                data@ == h1 + severity_rows_bytes(by_severity@.take(k as int)),
            decreases by_severity@.len() - k,
        {
            push_str(&mut data, by_severity[k].0.debug_str());
            push_u64_le(&mut data, by_severity[k].1 as u64);
            proof {
                assert(by_severity@.take(k + 1).drop_last() =~= by_severity@.take(k as int));
                assert(data@ =~= h1 + severity_rows_bytes(by_severity@.take(k + 1)));
            }
            k = k + 1;
        }
        assert(by_severity@.take(k as int) =~= by_severity@);
        push_u64_le(&mut data, self.pipeline_epoch.as_u64());
        let r = EscalationSummary {
            total_triggers,
            escalated_count: escalated,
            suppressed_count: suppressed,
            deferred_count: deferred,
            total_bundles,
            total_cost_millionths: total_cost,
            budget_utilization_millionths: utilization,
            remaining_budget_millionths: self.remaining_budget_millionths,
            triggers_by_kind: by_kind,
            triggers_by_severity: by_severity,
            pipeline_epoch: self.pipeline_epoch,
            summary_hash: ContentHash::compute(data.as_slice()),
        };
        assert(data@ =~= r.hash_input());
        r
    }
}

// ---------------------------------------------------------------------------
// EscalationError
// ---------------------------------------------------------------------------

/// Errors from escalation operations.
#[derive(Debug, Clone, PartialEq, Eq)]
pub enum EscalationError {
    TriggerNotFound { trigger_id: String },
    BundleNotFound { bundle_id: String },
    BudgetExhausted { remaining: u64, required: u64 },
    InvalidPolicy { detail: String },
}

impl EscalationError {
    /// Display rendering of the error.
    pub open spec fn text(self) -> Seq<char> {
        match self {
            EscalationError::TriggerNotFound { trigger_id } => "trigger not found: "@ + trigger_id@,
            EscalationError::BundleNotFound { bundle_id } => "bundle not found: "@ + bundle_id@,
            EscalationError::BudgetExhausted { remaining, required } => "budget exhausted: remaining="@
                + decimal(remaining as nat) + ", required="@ + decimal(required as nat),
            EscalationError::InvalidPolicy { detail } => "invalid policy: "@ + detail@,
        }
    }

    /// Display rendering of the error.
    pub fn to_string(&self) -> (r: String)
        ensures
            r@ == self.text(),
    {
        match self {
            EscalationError::TriggerNotFound { trigger_id } => {
                let mut s = owned("trigger not found: ");
                s.append(trigger_id.as_str());
                s
            },
            EscalationError::BundleNotFound { bundle_id } => {
                let mut s = owned("bundle not found: ");
                s.append(bundle_id.as_str());
                s
            },
            EscalationError::BudgetExhausted { remaining, required } => {
                let mut s = owned("budget exhausted: remaining=");
                s.append(u64_to_decimal(*remaining).as_str());
                s.append(", required=");
                s.append(u64_to_decimal(*required).as_str());
                s
            },
            EscalationError::InvalidPolicy { detail } => {
                let mut s = owned("invalid policy: ");
                s.append(detail.as_str());
                s
            },
        }
    }
}

// ---------------------------------------------------------------------------
// Laws
// ---------------------------------------------------------------------------

/// Processing a trigger never increases the remaining budget.
pub proof fn law_budget_never_grows(p: EscalationPipeline, next: EscalationPipeline, t: EscalationTrigger)
    requires
        p.processed(next, t),
    ensures
        next.remaining_budget_millionths <= p.remaining_budget_millionths,
{
}

/// Every processed trigger yields exactly one receipt, and a bundle exactly
/// when the receipt records an escalation.
pub proof fn law_one_receipt_per_trigger(
    p: EscalationPipeline,
    next: EscalationPipeline,
    t: EscalationTrigger,
)
    requires
        p.processed(next, t),
    ensures
        next.triggers@.len() == p.triggers@.len() + 1,
        next.receipts@.len() == p.receipts@.len() + 1,
        (next.bundles@.len() == p.bundles@.len() + 1) == (next.receipts@.last().decision
            == EscalationDecision::Escalate),
        next.bundles@.len() == p.bundles@.len() || next.bundles@.len() == p.bundles@.len() + 1,
{
}

/// The always-suppress list overrides everything, and it is the only way a
/// trigger is suppressed.
pub proof fn law_suppression_only_by_list(
    p: EscalationPipeline,
    kind: EscalationTriggerKind,
    severity: TriggerSeverity,
)
    ensures
        (p.decide_spec(kind, severity).0 == EscalationDecision::Suppress)
            == p.policy.always_suppress.has(kind),
{
}

/// A kind on the always-escalate list (and not on the suppress list)
/// escalates whatever its severity and the remaining budget.
pub proof fn law_always_escalate_ignores_budget(
    p: EscalationPipeline,
    kind: EscalationTriggerKind,
    severity: TriggerSeverity,
)
    requires
        p.policy.always_escalate.has(kind),
        !p.policy.always_suppress.has(kind),
    ensures
        p.decide_spec(kind, severity).0 == EscalationDecision::Escalate,
{
}

/// At or above the auto-escalate threshold a trigger (on neither list)
/// escalates while any budget remains, and is deferred otherwise.
pub proof fn law_threshold_escalates_while_budget_remains(
    p: EscalationPipeline,
    kind: EscalationTriggerKind,
    severity: TriggerSeverity,
)
    requires
        !p.policy.always_suppress.has(kind),
        !p.policy.always_escalate.has(kind),
        severity.level() >= p.policy.auto_escalate_threshold.level(),
    ensures
        p.decide_spec(kind, severity).0 == if p.remaining_budget_millionths > 0 {
            EscalationDecision::Escalate
        } else {
            EscalationDecision::Defer
        },
{
}

/// Below the auto-escalate threshold a trigger (on neither list) escalates
/// only when the severity-adjusted cost of its bundle content fits in the
/// remaining budget, and is deferred otherwise; so a pipeline with more
/// budget never defers a trigger that a poorer one escalates.
pub proof fn law_below_threshold_escalates_within_budget(
    p: EscalationPipeline,
    q: EscalationPipeline,
    kind: EscalationTriggerKind,
    severity: TriggerSeverity,
)
    requires
        !p.policy.always_suppress.has(kind),
        !p.policy.always_escalate.has(kind),
        severity.level() < p.policy.auto_escalate_threshold.level(),
        q.policy == p.policy,
    ensures
        p.decide_spec(kind, severity).0 == if content_cost(p.policy.content_spec(severity), severity)
            <= p.remaining_budget_millionths {
            EscalationDecision::Escalate
        } else {
            EscalationDecision::Defer
        },
        p.decide_spec(kind, severity).0 == EscalationDecision::Escalate && p.remaining_budget_millionths
            <= q.remaining_budget_millionths ==> q.decide_spec(kind, severity).0 == EscalationDecision::Escalate,
{
}

/// Emergency bundles carry every entry in plaintext; below Emergency,
/// boundary captures, state snapshots and heap profiles are digest-only.
pub proof fn law_redaction_by_severity(kind: BundleContentKind, severity: TriggerSeverity)
    ensures
        severity == TriggerSeverity::Emergency ==> redaction_for(kind, severity)
            == RedactionTreatment::Plaintext,
        severity != TriggerSeverity::Emergency && (kind == BundleContentKind::FullBoundaryCapture
            || kind == BundleContentKind::StateSnapshot || kind == BundleContentKind::HeapProfile)
            ==> redaction_for(kind, severity) == RedactionTreatment::DigestOnly,
{
}

/// Escalated, suppressed and deferred receipts partition all receipts.
pub proof fn law_receipts_partition(s: Seq<EscalationReceipt>)
    ensures
        receipts_with(s, EscalationDecision::Escalate).len() + receipts_with(
            s,
            EscalationDecision::Suppress,
        ).len() + receipts_with(s, EscalationDecision::Defer).len() == s.len(),
    decreases s.len(),
{
    if s.len() > 0 {
        law_receipts_partition(s.drop_last());
    }
}

/// In a pipeline that has answered every trigger it recorded with one
/// receipt (as every pipeline built by `new` and `process_trigger` has),
/// the summary's escalated, suppressed and deferred counts add up to its
/// trigger count.
pub proof fn law_summary_counts_partition(p: EscalationPipeline)
    requires
        p.receipts@.len() == p.triggers@.len(),
    ensures
        receipts_with(p.receipts@, EscalationDecision::Escalate).len() + receipts_with(
            p.receipts@,
            EscalationDecision::Suppress,
        ).len() + receipts_with(p.receipts@, EscalationDecision::Defer).len() == p.triggers@.len(),
{
    law_receipts_partition(p.receipts@);
}

/// The budget left from `budget` after spending `spent`, never below zero.
pub open spec fn budget_left(budget: u64, spent: nat) -> u64 {
    if spent >= budget {
        0
    } else {
        (budget - spent) as u64
    }
}

/// What every pipeline built by `new` and `process_trigger` satisfies: one
/// receipt per trigger, one bundle per escalation, and a remaining budget
/// equal to the policy budget less the summed bundle costs (not below zero).
pub open spec fn pipeline_consistent(p: EscalationPipeline) -> bool {
    &&& p.receipts@.len() == p.triggers@.len()
    &&& receipts_with(p.receipts@, EscalationDecision::Escalate).len() == p.bundles@.len()
    &&& p.remaining_budget_millionths == budget_left(p.policy.cost_budget_millionths, bundle_cost_sum(p.bundles@))
}

/// A fresh pipeline (no triggers, receipts or bundles, the whole budget
/// left) is consistent.
pub proof fn law_fresh_pipeline_consistent(p: EscalationPipeline)
    requires
        p.triggers@.len() == 0,
        p.receipts@.len() == 0,
        p.bundles@.len() == 0,
        p.remaining_budget_millionths == p.policy.cost_budget_millionths,
    ensures
        pipeline_consistent(p),
{
}

/// Processing a trigger keeps a pipeline consistent.
pub proof fn law_processing_keeps_consistent(p: EscalationPipeline, next: EscalationPipeline, t: EscalationTrigger)
    requires
        pipeline_consistent(p),
        p.processed(next, t),
    ensures
        pipeline_consistent(next),
{
    let r = next.receipts@;
    assert(r == p.receipts@.push(r.last())) by {
        assert(r.drop_last().push(r.last()) =~= r);
    }
    assert(receipts_with(r, EscalationDecision::Escalate) == if r.last().decision == EscalationDecision::Escalate {
        receipts_with(p.receipts@, EscalationDecision::Escalate).push(r.last())
    } else {
        receipts_with(p.receipts@, EscalationDecision::Escalate)
    });
    if next.bundles@.len() == p.bundles@.len() + 1 {
        assert(next.bundles@.drop_last() == p.bundles@);
    }
}

/// In a consistent pipeline, the summary's counts add up: escalated,
/// suppressed and deferred receipts make up all triggers, there is one
/// bundle per escalation, and the remaining budget is the policy budget
/// less the total bundle cost, not below zero.
pub proof fn law_consistent_summary(p: EscalationPipeline)
    requires
        pipeline_consistent(p),
    ensures
        receipts_with(p.receipts@, EscalationDecision::Escalate).len() + receipts_with(
            p.receipts@,
            EscalationDecision::Suppress,
        ).len() + receipts_with(p.receipts@, EscalationDecision::Defer).len() == p.triggers@.len(),
        receipts_with(p.receipts@, EscalationDecision::Escalate).len() == p.bundles@.len(),
        p.remaining_budget_millionths == budget_left(p.policy.cost_budget_millionths, bundle_cost_sum(p.bundles@)),
{
    law_receipts_partition(p.receipts@);
}

} // verus!
