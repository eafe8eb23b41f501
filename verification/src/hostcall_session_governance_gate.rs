//! Governance gate for hostcall sessions.
//!
//! Combines protocol conformance, replay-drop rates, degraded-mode episodes
//! and observability overhead into a verdict (Pass, ConditionalPass,
//! DegradedMode or Fail) with blocking reasons, recommendations and an
//! auditable receipt hash.  All fractions are fixed-point millionths
//! (1_000_000 = 1.0).

use crate::foundation::{
    decimal, owned, push_str, push_u64_le, ratio, ratio_millionths, sha256_digest, u64_le,
    u64_to_decimal, utf8, ContentHash, SecurityEpoch,
};
use vstd::prelude::*;

verus! {

/// Schema version of governance gate artifacts.
pub const SCHEMA_VERSION: &'static str = "franken-engine.hostcall-session-governance-gate.v1";

/// Component name.
pub const COMPONENT: &'static str = "hostcall_session_governance_gate";

/// Bead identifier of this component.
pub const BEAD_ID: &'static str = "bd-1lsy.6.5.3";

/// Policy identifier.
pub const POLICY_ID: &'static str = "RGC-505C";

/// Default minimum conformance fraction (90%).
pub const DEFAULT_MIN_CONFORMANCE: u64 = 900_000;

/// Default maximum replay-drop rate (5%).
pub const DEFAULT_MAX_REPLAY_DROP_RATE: u64 = 50_000;

/// Default maximum degraded severity (70%).
pub const DEFAULT_MAX_DEGRADED_SEVERITY: u64 = 700_000;

/// Default maximum observability overhead (10%).
pub const DEFAULT_MAX_OBSERVABILITY_OVERHEAD: u64 = 100_000;

/// Default minimum number of tested operations.
pub const DEFAULT_MIN_OPERATIONS_TESTED: u64 = 10;

// ---------------------------------------------------------------------------
// Enumerations
// ---------------------------------------------------------------------------

/// Level of protocol conformance for a hostcall session.
#[derive(Debug, Clone, Copy, PartialEq, Eq, PartialOrd, Ord, Hash, Structural)]
pub enum ConformanceLevel {
    Full,
    Partial,
    Degraded,
    NonConformant,
}

impl ConformanceLevel {
    /// All levels.
    pub const ALL: [ConformanceLevel; 4] = [
        ConformanceLevel::Full,
        ConformanceLevel::Partial,
        ConformanceLevel::Degraded,
        ConformanceLevel::NonConformant,
    ];

    /// Stable name of the level.
    pub open spec fn name(self) -> Seq<char> {
        match self {
            ConformanceLevel::Full => "full"@,
            ConformanceLevel::Partial => "partial"@,
            ConformanceLevel::Degraded => "degraded"@,
            ConformanceLevel::NonConformant => "non_conformant"@,
        }
    }

    /// Stable name of the level.
    pub fn as_str(self) -> (r: &'static str)
        ensures
            r@ == self.name(),
    {
        match self {
            ConformanceLevel::Full => "full",
            ConformanceLevel::Partial => "partial",
            ConformanceLevel::Degraded => "degraded",
            ConformanceLevel::NonConformant => "non_conformant",
        }
    }

    /// Whether this level is acceptable for gate passage (Full or Partial).
    pub fn is_acceptable(self) -> (r: bool)
        ensures
            r == (self == ConformanceLevel::Full || self == ConformanceLevel::Partial),
    {
        match self {
            ConformanceLevel::Full | ConformanceLevel::Partial => true,
            _ => false,
        }
    }

    /// Display rendering (the stable name).
    pub fn to_string(&self) -> (r: String)
        ensures
            r@ == self.name(),
    {
        owned(self.as_str())
    }
}

/// Reason a hostcall session entered degraded mode.
#[derive(Debug, Clone, Copy, PartialEq, Eq, PartialOrd, Ord, Hash, Structural)]
pub enum DegradedModeReason {
    HighLatency,
    ResourceExhaustion,
    SecurityViolation,
    ReplayDrop,
    ProtocolMismatch,
}

impl DegradedModeReason {
    /// All reasons.
    pub const ALL: [DegradedModeReason; 5] = [
        DegradedModeReason::HighLatency,
        DegradedModeReason::ResourceExhaustion,
        DegradedModeReason::SecurityViolation,
        DegradedModeReason::ReplayDrop,
        DegradedModeReason::ProtocolMismatch,
    ];

    /// Stable name of the reason.
    pub open spec fn name(self) -> Seq<char> {
        match self {
            DegradedModeReason::HighLatency => "high_latency"@,
            DegradedModeReason::ResourceExhaustion => "resource_exhaustion"@,
            DegradedModeReason::SecurityViolation => "security_violation"@,
            DegradedModeReason::ReplayDrop => "replay_drop"@,
            DegradedModeReason::ProtocolMismatch => "protocol_mismatch"@,
        }
    }

    /// Stable name of the reason.
    pub fn as_str(self) -> (r: &'static str)
        ensures
            r@ == self.name(),
    {
        match self {
            DegradedModeReason::HighLatency => "high_latency",
            DegradedModeReason::ResourceExhaustion => "resource_exhaustion",
            DegradedModeReason::SecurityViolation => "security_violation",
            DegradedModeReason::ReplayDrop => "replay_drop",
            DegradedModeReason::ProtocolMismatch => "protocol_mismatch",
        }
    }

    /// Whether this reason is security-critical (blocks passage).
    pub fn is_security_critical(self) -> (r: bool)
        ensures
            r == (self == DegradedModeReason::SecurityViolation),
    {
        self == DegradedModeReason::SecurityViolation
    }

    /// Display rendering (the stable name).
    pub fn to_string(&self) -> (r: String)
        ensures
            r@ == self.name(),
    {
        owned(self.as_str())
    }
}

/// Verdict of the governance gate.
#[derive(Debug, Clone, Copy, PartialEq, Eq, PartialOrd, Ord, Hash, Structural)]
pub enum GateVerdict {
    Pass,
    ConditionalPass,
    Fail,
    DegradedMode,
}

impl GateVerdict {
    /// All verdicts.
    pub const ALL: [GateVerdict; 4] = [
        GateVerdict::Pass,
        GateVerdict::ConditionalPass,
        GateVerdict::Fail,
        GateVerdict::DegradedMode,
    ];

    /// Stable name of the verdict.
    pub open spec fn name(self) -> Seq<char> {
        match self {
            GateVerdict::Pass => "pass"@,
            GateVerdict::ConditionalPass => "conditional_pass"@,
            GateVerdict::Fail => "fail"@,
            GateVerdict::DegradedMode => "degraded_mode"@,
        }
    }

    /// Stable name of the verdict.
    pub fn as_str(self) -> (r: &'static str)
        ensures
            r@ == self.name(),
    {
        match self {
            GateVerdict::Pass => "pass",
            GateVerdict::ConditionalPass => "conditional_pass",
            GateVerdict::Fail => "fail",
            GateVerdict::DegradedMode => "degraded_mode",
        }
    }

    /// Whether the verdict lets the session proceed (everything but Fail).
    pub fn allows_session(self) -> (r: bool)
        ensures
            r == (self != GateVerdict::Fail),
    {
        match self {
            GateVerdict::Pass | GateVerdict::ConditionalPass | GateVerdict::DegradedMode => true,
            GateVerdict::Fail => false,
        }
    }

    /// Whether the verdict is a clean pass.
    pub fn is_clean(self) -> (r: bool)
        ensures
            r == (self == GateVerdict::Pass),
    {
        self == GateVerdict::Pass
    }

    /// Display rendering (the stable name).
    pub fn to_string(&self) -> (r: String)
        ensures
            r@ == self.name(),
    {
        owned(self.as_str())
    }
}

/// Kind of replay drop in a hostcall session.
#[derive(Debug, Clone, Copy, PartialEq, Eq, PartialOrd, Ord, Hash, Structural)]
pub enum ReplayDropKind {
    Timeout,
    BufferOverflow,
    OrderingViolation,
    SchemaChange,
    SessionExpiry,
}

impl ReplayDropKind {
    /// All kinds.
    pub const ALL: [ReplayDropKind; 5] = [
        ReplayDropKind::Timeout,
        ReplayDropKind::BufferOverflow,
        ReplayDropKind::OrderingViolation,
        ReplayDropKind::SchemaChange,
        ReplayDropKind::SessionExpiry,
    ];

    /// Stable name of the kind.
    pub open spec fn name(self) -> Seq<char> {
        match self {
            ReplayDropKind::Timeout => "timeout"@,
            ReplayDropKind::BufferOverflow => "buffer_overflow"@,
            ReplayDropKind::OrderingViolation => "ordering_violation"@,
            ReplayDropKind::SchemaChange => "schema_change"@,
            ReplayDropKind::SessionExpiry => "session_expiry"@,
        }
    }

    /// Stable name of the kind.
    pub fn as_str(self) -> (r: &'static str)
        ensures
            r@ == self.name(),
    {
        match self {
            ReplayDropKind::Timeout => "timeout",
            ReplayDropKind::BufferOverflow => "buffer_overflow",
            ReplayDropKind::OrderingViolation => "ordering_violation",
            ReplayDropKind::SchemaChange => "schema_change",
            ReplayDropKind::SessionExpiry => "session_expiry",
        }
    }

    /// Display rendering (the stable name).
    pub fn to_string(&self) -> (r: String)
        ensures
            r@ == self.name(),
    {
        owned(self.as_str())
    }
}

// ---------------------------------------------------------------------------
// Evidence records
// ---------------------------------------------------------------------------

/// Per-mille rendering used by the displays (`fraction / 1000`).
pub open spec fn permille(fraction: u64) -> Seq<char> {
    decimal((fraction / 1000) as nat) + "‰"@
}

/// Protocol conformance measurement for a hostcall session.
#[derive(Debug, Clone, PartialEq, Eq)]
pub struct ConformanceVector {
    pub session_id: String,
    pub protocol_version: String,
    pub operations_tested: u64,
    pub operations_passed: u64,
    /// Passed over tested (millionths).
    pub conformance_fraction: u64,
    /// Failure descriptions.
    pub failures: Vec<String>,
    pub epoch: SecurityEpoch,
}

impl ConformanceVector {
    /// A conformance vector with its fraction computed (zero when nothing
    /// was tested).
    pub fn new(
        session_id: &str,
        protocol_version: &str,
        operations_tested: u64,
        operations_passed: u64,
        failures: Vec<String>,
        epoch: SecurityEpoch,
    ) -> (r: Self)
        ensures
            r.session_id@ == session_id@,
            r.protocol_version@ == protocol_version@,
            r.operations_tested == operations_tested,
            r.operations_passed == operations_passed,
            r.conformance_fraction == ratio_millionths(operations_passed, operations_tested),
            r.failures@ == failures@,
            r.epoch == epoch,
    {
        ConformanceVector {
            session_id: owned(session_id),
            protocol_version: owned(protocol_version),
            operations_tested,
            operations_passed,
            conformance_fraction: ratio(operations_passed, operations_tested),
            failures,
            epoch,
        }
    }

    /// Whether all tested operations passed (and some were tested).
    pub fn is_fully_conformant(&self) -> (r: bool)
        ensures
            r == (self.operations_passed == self.operations_tested && self.operations_tested > 0),
    {
        self.operations_passed == self.operations_tested && self.operations_tested > 0
    }

    /// Display rendering `conformance[id]: passed/tested (N‰)`.
    pub fn to_string(&self) -> (r: String)
        ensures
            r@ == "conformance["@ + self.session_id@ + "]: "@ + decimal(
                self.operations_passed as nat,
            ) + "/"@ + decimal(self.operations_tested as nat) + " ("@ + permille(
                self.conformance_fraction,
            ) + ")"@,
    {
        let mut s = owned("conformance[");
        s.append(self.session_id.as_str());
        s.append("]: ");
        s.append(u64_to_decimal(self.operations_passed).as_str());
        s.append("/");
        s.append(u64_to_decimal(self.operations_tested).as_str());
        s.append(" (");
        s.append(u64_to_decimal(self.conformance_fraction / 1000).as_str());
        s.append("‰");
        s.append(")");
        s
    }
}

/// Record of replay-dropped messages in a hostcall session.
#[derive(Debug, Clone, PartialEq, Eq)]
pub struct ReplayDropRecord {
    pub session_id: String,
    pub drop_kind: ReplayDropKind,
    pub dropped_count: u64,
    pub total_count: u64,
    /// Dropped over total (millionths).
    pub drop_rate: u64,
    pub epoch: SecurityEpoch,
}

impl ReplayDropRecord {
    /// A record with its drop rate computed (zero for an empty window).
    pub fn new(
        session_id: &str,
        drop_kind: ReplayDropKind,
        dropped_count: u64,
        total_count: u64,
        epoch: SecurityEpoch,
    ) -> (r: Self)
        ensures
            r.session_id@ == session_id@,
            r.drop_kind == drop_kind,
            r.dropped_count == dropped_count,
            r.total_count == total_count,
            r.drop_rate == ratio_millionths(dropped_count, total_count),
            r.epoch == epoch,
    {
        ReplayDropRecord {
            session_id: owned(session_id),
            drop_kind,
            dropped_count,
            total_count,
            drop_rate: ratio(dropped_count, total_count),
            epoch,
        }
    }

    /// Display rendering `replay-drop[id]: kind dropped/total (N‰)`.
    pub fn to_string(&self) -> (r: String)
        ensures
            r@ == "replay-drop["@ + self.session_id@ + "]: "@ + self.drop_kind.name() + " "@
                + decimal(self.dropped_count as nat) + "/"@ + decimal(self.total_count as nat)
                + " ("@ + permille(self.drop_rate) + ")"@,
    {
        let mut s = owned("replay-drop[");
        s.append(self.session_id.as_str());
        s.append("]: ");
        s.append(self.drop_kind.as_str());
        s.append(" ");
        s.append(u64_to_decimal(self.dropped_count).as_str());
        s.append("/");
        s.append(u64_to_decimal(self.total_count).as_str());
        s.append(" (");
        s.append(u64_to_decimal(self.drop_rate / 1000).as_str());
        s.append("‰");
        s.append(")");
        s
    }
}

/// Record of a degraded-mode episode in a hostcall session.
#[derive(Debug, Clone, PartialEq, Eq)]
pub struct DegradedModeRecord {
    pub session_id: String,
    pub reason: DegradedModeReason,
    /// Severity (millionths; higher is worse).
    pub severity: u64,
    /// Epochs the degradation lasted.
    pub duration_epochs: u64,
    /// Mitigations applied.
    pub mitigations: Vec<String>,
    pub epoch: SecurityEpoch,
}

impl DegradedModeRecord {
    /// Create a degraded-mode record.
    pub fn new(
        session_id: &str,
        reason: DegradedModeReason,
        severity: u64,
        duration_epochs: u64,
        mitigations: Vec<String>,
        epoch: SecurityEpoch,
    ) -> (r: Self)
        ensures
            r.session_id@ == session_id@,
            r.reason == reason,
            r.severity == severity,
            r.duration_epochs == duration_epochs,
            r.mitigations@ == mitigations@,
            r.epoch == epoch,
    {
        DegradedModeRecord {
            session_id: owned(session_id),
            reason,
            severity,
            duration_epochs,
            mitigations,
            epoch,
        }
    }

    /// Whether the degradation is security-critical.
    pub fn is_security_critical(&self) -> (r: bool)
        ensures
            r == (self.reason == DegradedModeReason::SecurityViolation),
    {
        self.reason.is_security_critical()
    }

    /// Display rendering `degraded[id]: reason severity=S epochs=E`.
    pub fn to_string(&self) -> (r: String)
        ensures
            r@ == "degraded["@ + self.session_id@ + "]: "@ + self.reason.name() + " severity="@
                + decimal(self.severity as nat) + " epochs="@ + decimal(self.duration_epochs as nat),
    {
        let mut s = owned("degraded[");
        s.append(self.session_id.as_str());
        s.append("]: ");
        s.append(self.reason.as_str());
        s.append(" severity=");
        s.append(u64_to_decimal(self.severity).as_str());
        s.append(" epochs=");
        s.append(u64_to_decimal(self.duration_epochs).as_str());
        s
    }
}

/// Instrumentation overhead on hostcall throughput.
#[derive(Debug, Clone, Copy, PartialEq, Eq, Structural)]
pub struct ObservabilityDelta {
    /// Throughput with instrumentation (millionths of ops/sec).
    pub instrumented_throughput: u64,
    /// Throughput without instrumentation (millionths of ops/sec).
    pub uninstrumented_throughput: u64,
    /// Lost throughput over uninstrumented throughput (millionths).
    pub overhead_fraction: u64,
    /// Whether the overhead is acceptable per policy.
    pub acceptable: bool,
}

/// Overhead fraction: lost throughput over uninstrumented throughput.
pub open spec fn overhead_of(instrumented: u64, uninstrumented: u64) -> u64 {
    ratio_millionths(
        if uninstrumented >= instrumented {
            (uninstrumented - instrumented) as u64
        } else {
            0
        },
        uninstrumented,
    )
}

impl ObservabilityDelta {
    /// A delta with its overhead computed, acceptable up to the default maximum.
    pub fn new(instrumented_throughput: u64, uninstrumented_throughput: u64) -> (r: Self)
        ensures
            r.instrumented_throughput == instrumented_throughput,
            r.uninstrumented_throughput == uninstrumented_throughput,
            r.overhead_fraction == overhead_of(instrumented_throughput, uninstrumented_throughput),
            r.acceptable == (r.overhead_fraction <= DEFAULT_MAX_OBSERVABILITY_OVERHEAD),
    {
        ObservabilityDelta::with_acceptable(
            instrumented_throughput,
            uninstrumented_throughput,
            DEFAULT_MAX_OBSERVABILITY_OVERHEAD,
        )
    }

    /// A delta with its overhead computed, acceptable up to `max_overhead`.
    pub fn with_acceptable(
        instrumented_throughput: u64,
        uninstrumented_throughput: u64,
        max_overhead: u64,
    ) -> (r: Self)
        ensures
            r.instrumented_throughput == instrumented_throughput,
            r.uninstrumented_throughput == uninstrumented_throughput,
            r.overhead_fraction == overhead_of(instrumented_throughput, uninstrumented_throughput),
            r.acceptable == (r.overhead_fraction <= max_overhead),
    {
        let diff = uninstrumented_throughput.saturating_sub(instrumented_throughput);
        let overhead_fraction = ratio(diff, uninstrumented_throughput);
        ObservabilityDelta {
            instrumented_throughput,
            uninstrumented_throughput,
            overhead_fraction,
            acceptable: overhead_fraction <= max_overhead,
        }
    }

    /// Display rendering `observability: overhead=N‰ acceptable=B`.
    pub fn to_string(&self) -> (r: String)
        ensures
            r@ == "observability: overhead="@ + permille(self.overhead_fraction) + " acceptable="@
                + crate::foundation::bool_text(self.acceptable),
    {
        let mut s = owned("observability: overhead=");
        s.append(u64_to_decimal(self.overhead_fraction / 1000).as_str());
        s.append("‰");
        s.append(" acceptable=");
        s.append(crate::foundation::bool_to_str(self.acceptable));
        s
    }
}

// ---------------------------------------------------------------------------
// GateConfig
// ---------------------------------------------------------------------------

/// Thresholds of the governance gate.
#[derive(Debug, Clone, Copy, PartialEq, Eq, Structural)]
pub struct GateConfig {
    /// Minimum conformance fraction to pass (millionths).
    pub min_conformance_fraction: u64,
    /// Maximum acceptable replay-drop rate (millionths).
    pub max_replay_drop_rate: u64,
    /// Maximum degraded severity before failing (millionths).
    pub max_degraded_severity: u64,
    /// Maximum observability overhead (millionths).
    pub max_observability_overhead: u64,
    /// Minimum number of operations that must be tested.
    pub min_operations_tested: u64,
}

impl GateConfig {
    /// The default thresholds.
    pub open spec fn default_spec() -> GateConfig {
        GateConfig {
            min_conformance_fraction: DEFAULT_MIN_CONFORMANCE,
            max_replay_drop_rate: DEFAULT_MAX_REPLAY_DROP_RATE,
            max_degraded_severity: DEFAULT_MAX_DEGRADED_SEVERITY,
            max_observability_overhead: DEFAULT_MAX_OBSERVABILITY_OVERHEAD,
            min_operations_tested: DEFAULT_MIN_OPERATIONS_TESTED,
        }
    }

    /// A strict configuration.
    pub fn strict() -> (r: Self)
        ensures
            r == (GateConfig {
                min_conformance_fraction: 950_000,
                max_replay_drop_rate: 10_000,
                max_degraded_severity: 300_000,
                max_observability_overhead: 50_000,
                min_operations_tested: 50,
            }),
    {
        GateConfig {
            min_conformance_fraction: 950_000,
            max_replay_drop_rate: 10_000,
            max_degraded_severity: 300_000,
            max_observability_overhead: 50_000,
            min_operations_tested: 50,
        }
    }

    /// A permissive configuration.
    pub fn permissive() -> (r: Self)
        ensures
            r == (GateConfig {
                min_conformance_fraction: 500_000,
                max_replay_drop_rate: 200_000,
                max_degraded_severity: 900_000,
                max_observability_overhead: 500_000,
                min_operations_tested: 1,
            }),
    {
        GateConfig {
            min_conformance_fraction: 500_000,
            max_replay_drop_rate: 200_000,
            max_degraded_severity: 900_000,
            max_observability_overhead: 500_000,
            min_operations_tested: 1,
        }
    }
}

impl Default for GateConfig {
    fn default() -> (r: Self)
        ensures
            r == GateConfig::default_spec(),
    {
        GateConfig {
            min_conformance_fraction: DEFAULT_MIN_CONFORMANCE,
            max_replay_drop_rate: DEFAULT_MAX_REPLAY_DROP_RATE,
            max_degraded_severity: DEFAULT_MAX_DEGRADED_SEVERITY,
            max_observability_overhead: DEFAULT_MAX_OBSERVABILITY_OVERHEAD,
            min_operations_tested: DEFAULT_MIN_OPERATIONS_TESTED,
        }
    }
}

// ---------------------------------------------------------------------------
// GateResult / DecisionReceipt
// ---------------------------------------------------------------------------

/// Result of the governance gate evaluation.
#[derive(Debug, Clone, PartialEq, Eq)]
pub struct GateResult {
    pub verdict: GateVerdict,
    pub conformance_level: ConformanceLevel,
    /// Active degraded-mode reasons (may be empty).
    pub degraded_reasons: Vec<DegradedModeReason>,
    /// Reasons that block passage (empty if passing).
    pub blocking_reasons: Vec<String>,
    /// Advisory recommendations.
    pub recommendations: Vec<String>,
    /// Content hash of the decision.
    pub receipt_hash: ContentHash,
}

impl GateResult {
    /// Whether the session may proceed (any outcome other than Fail).
    pub fn is_passing(&self) -> (r: bool)
        ensures
            r == (self.verdict != GateVerdict::Fail),
    {
        self.verdict.allows_session()
    }

    /// Whether there are any recommendations.
    pub fn has_recommendations(&self) -> (r: bool)
        ensures
            r == (self.recommendations@.len() > 0),
    {
        self.recommendations.len() > 0
    }

    /// Display rendering `gate[verdict]: conformance=L blocking=B recommendations=R`.
    pub fn to_string(&self) -> (r: String)
        ensures
            r@ == "gate["@ + self.verdict.name() + "]: conformance="@ + self.conformance_level.name()
                + " blocking="@ + decimal(self.blocking_reasons@.len()) + " recommendations="@
                + decimal(self.recommendations@.len()),
    {
        let mut s = owned("gate[");
        s.append(self.verdict.as_str());
        s.append("]: conformance=");
        s.append(self.conformance_level.as_str());
        s.append(" blocking=");
        s.append(u64_to_decimal(self.blocking_reasons.len() as u64).as_str());
        s.append(" recommendations=");
        s.append(u64_to_decimal(self.recommendations.len() as u64).as_str());
        s
    }
}

/// Audit receipt of one governance decision.
#[derive(Debug, Clone, PartialEq, Eq)]
pub struct DecisionReceipt {
    pub receipt_hash: ContentHash,
    /// Component that issued the receipt.
    pub component: String,
    pub epoch: SecurityEpoch,
    pub verdict: GateVerdict,
    /// Hash of the input evidence.
    pub evidence_hash: ContentHash,
}

/// Bytes hashed into a decision receipt.
pub open spec fn receipt_input(epoch: SecurityEpoch, verdict: GateVerdict, evidence: Seq<u8>) -> Seq<u8> {
    utf8(COMPONENT@) + u64_le(epoch.0) + utf8(verdict.name()) + evidence
}

impl DecisionReceipt {
    /// A receipt whose hash is the content hash of the SHA-256 digest of the
    /// component, epoch, verdict and evidence hash.
    pub fn new(epoch: SecurityEpoch, verdict: GateVerdict, evidence_hash: ContentHash) -> (r: Self)
        ensures
            r.receipt_hash@ == sha256_digest(
                sha256_digest(receipt_input(epoch, verdict, evidence_hash@)),
            ),
            r.component@ == COMPONENT@,
            r.epoch == epoch,
            r.verdict == verdict,
            r.evidence_hash == evidence_hash,
    {
        let mut data: Vec<u8> = Vec::new();
        push_str(&mut data, COMPONENT);
        push_u64_le(&mut data, epoch.as_u64());
        push_str(&mut data, verdict.as_str());
        crate::foundation::push_bytes(&mut data, evidence_hash.as_bytes());
        assert(data@ =~= receipt_input(epoch, verdict, evidence_hash@));
        let digest = ContentHash::compute(data.as_slice());
        DecisionReceipt {
            receipt_hash: ContentHash::compute(digest.as_bytes()),
            component: owned(COMPONENT),
            epoch,
            verdict,
            evidence_hash,
        }
    }

    /// Display rendering `receipt[component]: verdict at epoch N`.
    pub fn to_string(&self) -> (r: String)
        ensures
            r@ == "receipt["@ + self.component@ + "]: "@ + self.verdict.name() + " at epoch "@
                + decimal(self.epoch.0 as nat),
    {
        let mut s = owned("receipt[");
        s.append(self.component.as_str());
        s.append("]: ");
        s.append(self.verdict.as_str());
        s.append(" at epoch ");
        s.append(u64_to_decimal(self.epoch.as_u64()).as_str());
        s
    }
}

// ---------------------------------------------------------------------------
// GateSummary
// ---------------------------------------------------------------------------

/// Number of results with verdict `v`.
pub open spec fn count_verdict(s: Seq<GateResult>, v: GateVerdict) -> nat
    decreases s.len(),
{
    if s.len() == 0 {
        0
    } else {
        count_verdict(s.drop_last(), v) + if s.last().verdict == v {
            1nat
        } else {
            0nat
        }
    }
}

proof fn lemma_count_le(s: Seq<GateResult>, v: GateVerdict)
    ensures
        count_verdict(s, v) <= s.len(),
    decreases s.len(),
{
    if s.len() > 0 {
        lemma_count_le(s.drop_last(), v);
    }
}

/// The four verdict counts add up to the number of results.
pub proof fn law_verdict_counts_partition(s: Seq<GateResult>)
    ensures
        count_verdict(s, GateVerdict::Pass) + count_verdict(s, GateVerdict::ConditionalPass)
            + count_verdict(s, GateVerdict::Fail) + count_verdict(s, GateVerdict::DegradedMode)
            == s.len(),
    decreases s.len(),
{
    if s.len() > 0 {
        law_verdict_counts_partition(s.drop_last());
    }
}

/// Summary statistics over several gate evaluations.
#[derive(Debug, Clone, Copy, PartialEq, Eq, Structural)]
pub struct GateSummary {
    pub total: u64,
    pub passed: u64,
    pub conditional: u64,
    pub failed: u64,
    pub degraded: u64,
    /// (passed + conditional) over total (millionths).
    pub pass_rate: u64,
}

impl GateSummary {
    /// The summary of a sequence of results.
    pub open spec fn of_results(s: Seq<GateResult>) -> GateSummary {
        let passed = count_verdict(s, GateVerdict::Pass);
        let conditional = count_verdict(s, GateVerdict::ConditionalPass);
        GateSummary {
            total: s.len() as u64,
            passed: passed as u64,
            conditional: conditional as u64,
            failed: count_verdict(s, GateVerdict::Fail) as u64,
            degraded: count_verdict(s, GateVerdict::DegradedMode) as u64,
            pass_rate: ratio_millionths((passed + conditional) as u64, s.len() as u64),
        }
    }

    /// Build a summary from gate results.
    pub fn from_results(results: &[GateResult]) -> (r: Self)
        ensures
            r == GateSummary::of_results(results@),
    {
        let total = results.len() as u64;
        let mut passed: u64 = 0;
        let mut conditional: u64 = 0;
        let mut failed: u64 = 0;
        let mut degraded: u64 = 0;
        let mut i: usize = 0;
        while i < results.len()
            invariant
                i <= results@.len(),
                passed == count_verdict(results@.take(i as int), GateVerdict::Pass),
                conditional == count_verdict(results@.take(i as int), GateVerdict::ConditionalPass),
                failed == count_verdict(results@.take(i as int), GateVerdict::Fail),
                degraded == count_verdict(results@.take(i as int), GateVerdict::DegradedMode),
            decreases results@.len() - i,
        {
            let ghost t = results@.take(i as int);
            proof {
                lemma_count_le(t, GateVerdict::Pass);
                lemma_count_le(t, GateVerdict::ConditionalPass);
                lemma_count_le(t, GateVerdict::Fail);
                lemma_count_le(t, GateVerdict::DegradedMode);
            }
            match results[i].verdict {
                GateVerdict::Pass => passed = passed + 1,
                GateVerdict::ConditionalPass => conditional = conditional + 1,
                GateVerdict::Fail => failed = failed + 1,
                GateVerdict::DegradedMode => degraded = degraded + 1,
            }
            i = i + 1;
            assert(results@.take(i as int).drop_last() =~= t);
        }
        assert(results@.take(i as int) =~= results@);
        proof {
            law_verdict_counts_partition(results@);
        }
        let passing = passed + conditional;
        GateSummary {
            total,
            passed,
            conditional,
            failed,
            degraded,
            pass_rate: ratio(passing, total),
        }
    }

    /// Whether every evaluation passed or conditionally passed.
    pub fn all_passing(&self) -> (r: bool)
        ensures
            r == (self.total > 0 && self.failed == 0 && self.degraded == 0),
    {
        self.total > 0 && self.failed == 0 && self.degraded == 0
    }

    /// Display rendering of the summary.
    pub fn to_string(&self) -> (r: String)
        ensures
            r@ == "summary: "@ + decimal(self.passed as nat) + "/"@ + decimal(self.total as nat)
                + " passed, "@ + decimal(self.conditional as nat) + " conditional, "@ + decimal(
                self.failed as nat,
            ) + " failed, "@ + decimal(self.degraded as nat) + " degraded ("@ + permille(
                self.pass_rate,
            ) + ")"@,
    {
        let mut s = owned("summary: ");
        s.append(u64_to_decimal(self.passed).as_str());
        s.append("/");
        s.append(u64_to_decimal(self.total).as_str());
        s.append(" passed, ");
        s.append(u64_to_decimal(self.conditional).as_str());
        s.append(" conditional, ");
        s.append(u64_to_decimal(self.failed).as_str());
        s.append(" failed, ");
        s.append(u64_to_decimal(self.degraded).as_str());
        s.append(" degraded (");
        s.append(u64_to_decimal(self.pass_rate / 1000).as_str());
        s.append("‰");
        s.append(")");
        s
    }
}

// ---------------------------------------------------------------------------
// Evaluation
// ---------------------------------------------------------------------------

/// The conformance level of a vector: non-conformant below the minimum
/// number of tested operations; otherwise by the fraction against the
/// threshold and half the threshold.
pub open spec fn conformance_level_of(v: ConformanceVector, config: GateConfig) -> ConformanceLevel {
    if v.operations_tested < config.min_operations_tested {
        ConformanceLevel::NonConformant
    } else if v.conformance_fraction >= config.min_conformance_fraction {
        if v.operations_passed == v.operations_tested && v.operations_tested > 0 {
            ConformanceLevel::Full
        } else {
            ConformanceLevel::Partial
        }
    } else if v.conformance_fraction >= config.min_conformance_fraction / 2 {
        ConformanceLevel::Degraded
    } else {
        ConformanceLevel::NonConformant
    }
}

/// Evaluate a conformance vector against the thresholds.
pub fn evaluate_conformance(vector: &ConformanceVector, config: &GateConfig) -> (r: ConformanceLevel)
    ensures
        r == conformance_level_of(*vector, *config),
{
    if vector.operations_tested < config.min_operations_tested {
        return ConformanceLevel::NonConformant;
    }
    if vector.conformance_fraction >= config.min_conformance_fraction {
        if vector.is_fully_conformant() {
            ConformanceLevel::Full
        } else {
            ConformanceLevel::Partial
        }
    } else if vector.conformance_fraction >= config.min_conformance_fraction / 2 {
        ConformanceLevel::Degraded
    } else {
        ConformanceLevel::NonConformant
    }
}

/// Whether every replay-drop rate is within the maximum.
pub open spec fn drops_acceptable(records: Seq<ReplayDropRecord>, config: GateConfig) -> bool {
    forall|i: int| 0 <= i < records.len() ==> (#[trigger] records[i]).drop_rate <= config.max_replay_drop_rate
}

/// Evaluate replay-drop records: `true` when every rate is acceptable.
pub fn evaluate_replay_drops(records: &[ReplayDropRecord], config: &GateConfig) -> (r: bool)
    ensures
        r == drops_acceptable(records@, *config),
{
    let mut i: usize = 0;
    while i < records.len()
        invariant
            i <= records@.len(),
            forall|k: int| 0 <= k < i ==> (#[trigger] records@[k]).drop_rate <= config.max_replay_drop_rate,
        decreases records@.len() - i,
    {
        if records[i].drop_rate > config.max_replay_drop_rate {
            return false;
        }
        i = i + 1;
    }
    true
}

/// Whether a degraded-mode record is active: severe beyond the threshold or
/// security-critical.
pub open spec fn record_active(r: DegradedModeRecord, config: GateConfig) -> bool {
    r.severity > config.max_degraded_severity || r.reason == DegradedModeReason::SecurityViolation
}

/// Reasons of the active records, first occurrence first, without repeats.
pub open spec fn active_reasons(records: Seq<DegradedModeRecord>, config: GateConfig) -> Seq<
    DegradedModeReason,
>
    decreases records.len(),
{
    if records.len() == 0 {
        Seq::empty()
    } else {
        let rest = active_reasons(records.drop_last(), config);
        let last = records.last();
        if record_active(last, config) && !rest.contains(last.reason) {
            rest.push(last.reason)
        } else {
            rest
        }
    }
}

fn contains_reason(v: &Vec<DegradedModeReason>, x: DegradedModeReason) -> (r: bool)
    ensures
        r == v@.contains(x),
{
    let mut i: usize = 0;
    while i < v.len()
        invariant
            i <= v@.len(),
            forall|k: int| 0 <= k < i ==> v@[k] != x,
        decreases v@.len() - i,
    {
        if v[i] == x {
            return true;
        }
        i = i + 1;
    }
    false
}

/// Evaluate degraded-mode records: the reasons of the records whose
/// severity exceeds the threshold or that are security-critical, each once.
pub fn evaluate_degraded_mode(records: &[DegradedModeRecord], config: &GateConfig) -> (r: Vec<
    DegradedModeReason,
>)
    ensures
        r@ == active_reasons(records@, *config),
{
    let mut reasons: Vec<DegradedModeReason> = Vec::new();
    let mut i: usize = 0;
    while i < records.len()
        invariant
            i <= records@.len(),
            reasons@ == active_reasons(records@.take(i as int), *config),
        decreases records@.len() - i,
    {
        proof {
            assert(records@.take(i + 1).drop_last() =~= records@.take(i as int));
        }
        let record = &records[i];
        if (record.severity > config.max_degraded_severity || record.is_security_critical())
            && !contains_reason(&reasons, record.reason) {
            reasons.push(record.reason);
        }
        i = i + 1;
    }
    assert(records@.take(i as int) =~= records@);
    reasons
}

/// Blocking message of one replay-drop record.
pub open spec fn drop_message(r: ReplayDropRecord, config: GateConfig) -> Seq<char> {
    "replay-drop rate "@ + decimal(r.drop_rate as nat) + " exceeds max "@ + decimal(
        config.max_replay_drop_rate as nat,
    ) + " for "@ + r.drop_kind.name() + " ("@ + r.session_id@ + ")"@
}

/// Blocking messages of the records whose rate exceeds the maximum.
pub open spec fn drop_messages(records: Seq<ReplayDropRecord>, config: GateConfig) -> Seq<Seq<char>>
    decreases records.len(),
{
    if records.len() == 0 {
        Seq::empty()
    } else {
        let rest = drop_messages(records.drop_last(), config);
        if records.last().drop_rate > config.max_replay_drop_rate {
            rest.push(drop_message(records.last(), config))
        } else {
            rest
        }
    }
}

/// Messages about active degraded reasons: security-critical ones (when
/// `critical`) or the others.
pub open spec fn reason_messages(reasons: Seq<DegradedModeReason>, critical: bool) -> Seq<Seq<char>>
    decreases reasons.len(),
{
    if reasons.len() == 0 {
        Seq::empty()
    } else {
        let rest = reason_messages(reasons.drop_last(), critical);
        let last = reasons.last();
        if (last == DegradedModeReason::SecurityViolation) == critical {
            rest.push(
                if critical {
                    "security-critical degradation: "@ + last.name()
                } else {
                    "degraded-mode active: "@ + last.name()
                },
            )
        } else {
            rest
        }
    }
}

/// Recommendation about the conformance level, if any.
pub open spec fn conformance_recommendation(v: ConformanceVector, config: GateConfig) -> Seq<Seq<char>> {
    match conformance_level_of(v, config) {
        ConformanceLevel::Partial => seq![
            "conformance partial: "@ + decimal(v.operations_passed as nat) + "/"@ + decimal(
                v.operations_tested as nat,
            ) + " operations passed"@,
        ],
        ConformanceLevel::Degraded => seq![
            "conformance degraded: fraction "@ + decimal(v.conformance_fraction as nat)
                + " below threshold "@ + decimal(config.min_conformance_fraction as nat),
        ],
        _ => Seq::empty(),
    }
}

/// Blocking message about non-conformance, if any.
pub open spec fn conformance_blocking(v: ConformanceVector, config: GateConfig) -> Seq<Seq<char>> {
    if conformance_level_of(v, config) == ConformanceLevel::NonConformant {
        seq![
            "non-conformant: fraction "@ + decimal(v.conformance_fraction as nat)
                + " below threshold "@ + decimal(config.min_conformance_fraction as nat)
                + " (tested "@ + decimal(v.operations_tested as nat) + ")"@,
        ]
    } else {
        Seq::empty()
    }
}

/// Recommendation about observability overhead, if any.
pub open spec fn observability_recommendation(
    observability: Option<ObservabilityDelta>,
    config: GateConfig,
) -> Seq<Seq<char>> {
    match observability {
        Some(d) => if d.overhead_fraction > config.max_observability_overhead {
            seq![
                "observability overhead "@ + decimal(d.overhead_fraction as nat) + " exceeds max "@
                    + decimal(config.max_observability_overhead as nat),
            ]
        } else {
            Seq::empty()
        },
        None => Seq::empty(),
    }
}

/// All blocking reasons, in evaluation order.
pub open spec fn blocking_of(
    v: ConformanceVector,
    drops: Seq<ReplayDropRecord>,
    degraded: Seq<DegradedModeRecord>,
    config: GateConfig,
) -> Seq<Seq<char>> {
    conformance_blocking(v, config) + drop_messages(drops, config) + reason_messages(
        active_reasons(degraded, config),
        true,
    )
}

/// All recommendations, in evaluation order.
pub open spec fn recommendations_of(
    v: ConformanceVector,
    degraded: Seq<DegradedModeRecord>,
    observability: Option<ObservabilityDelta>,
    config: GateConfig,
) -> Seq<Seq<char>> {
    conformance_recommendation(v, config) + reason_messages(active_reasons(degraded, config), false)
        + observability_recommendation(observability, config)
}

/// Outcome of an evaluation: Fail with any blocking reason, else
/// DegradedMode with any active degraded reason, else ConditionalPass with
/// any recommendation, else Pass.
pub open spec fn verdict_of(
    v: ConformanceVector,
    drops: Seq<ReplayDropRecord>,
    degraded: Seq<DegradedModeRecord>,
    observability: Option<ObservabilityDelta>,
    config: GateConfig,
) -> GateVerdict {
    if blocking_of(v, drops, degraded, config).len() > 0 {
        GateVerdict::Fail
    } else if active_reasons(degraded, config).len() > 0 {
        GateVerdict::DegradedMode
    } else if recommendations_of(v, degraded, observability, config).len() > 0 {
        GateVerdict::ConditionalPass
    } else {
        GateVerdict::Pass
    }
}

/// Little-endian drop rates of some records.
pub open spec fn drop_rate_bytes(s: Seq<ReplayDropRecord>) -> Seq<u8>
    decreases s.len(),
{
    if s.len() == 0 {
        Seq::empty()
    } else {
        drop_rate_bytes(s.drop_last()) + u64_le(s.last().drop_rate)
    }
}

/// Little-endian severities of some records.
pub open spec fn severity_bytes(s: Seq<DegradedModeRecord>) -> Seq<u8>
    decreases s.len(),
{
    if s.len() == 0 {
        Seq::empty()
    } else {
        severity_bytes(s.drop_last()) + u64_le(s.last().severity)
    }
}

/// Bytes hashed into the receipt hash of an evaluation.
pub open spec fn evaluation_input(
    v: ConformanceVector,
    drops: Seq<ReplayDropRecord>,
    degraded: Seq<DegradedModeRecord>,
    observability: Option<ObservabilityDelta>,
    verdict: GateVerdict,
) -> Seq<u8> {
    utf8(COMPONENT@) + utf8(v.session_id@) + u64_le(v.conformance_fraction) + u64_le(
        drops.len() as u64,
    ) + drop_rate_bytes(drops) + u64_le(degraded.len() as u64) + severity_bytes(degraded) + (
    match observability {
        Some(d) => u64_le(d.overhead_fraction),
        None => Seq::empty(),
    }) + utf8(verdict.name())
}

/// Views of a list of strings.
pub open spec fn texts(v: Seq<String>) -> Seq<Seq<char>> {
    v.map_values(|s: String| s@)
}

fn push_text(v: &mut Vec<String>, s: String)
    ensures
        texts(final(v)@) == texts(old(v)@).push(s@),
{
    let ghost before = v@;
    v.push(s);
    assert(texts(v@) =~= texts(before).push(s@));
}

proof fn lemma_no_drop_messages(records: Seq<ReplayDropRecord>, config: GateConfig)
    requires
        drops_acceptable(records, config),
    ensures
        drop_messages(records, config) == Seq::<Seq<char>>::empty(),
    decreases records.len(),
{
    if records.len() > 0 {
        let t = records.drop_last();
        assert forall|i: int| 0 <= i < t.len() implies (#[trigger] t[i]).drop_rate
            <= config.max_replay_drop_rate by {
            assert(t[i] == records[i]);
        }
        lemma_no_drop_messages(t, config);
        assert(records[records.len() - 1].drop_rate <= config.max_replay_drop_rate);
    }
}

fn push_drop_messages(
    blocking: &mut Vec<String>,
    drops: &[ReplayDropRecord],
    config: &GateConfig,
)
    ensures
        texts(final(blocking)@) == texts(old(blocking)@) + drop_messages(drops@, *config),
{
    let ghost base = texts(blocking@);
    let mut i: usize = 0;
    while i < drops.len()
        invariant
            i <= drops@.len(),
            texts(blocking@) == base + drop_messages(drops@.take(i as int), *config),
        decreases drops@.len() - i,
    {
        proof {
            assert(drops@.take(i + 1).drop_last() =~= drops@.take(i as int));
        }
        let record = &drops[i];
        if record.drop_rate > config.max_replay_drop_rate {
            let mut m = owned("replay-drop rate ");
            m.append(u64_to_decimal(record.drop_rate).as_str());
            m.append(" exceeds max ");
            m.append(u64_to_decimal(config.max_replay_drop_rate).as_str());
            m.append(" for ");
            m.append(record.drop_kind.as_str());
            m.append(" (");
            m.append(record.session_id.as_str());
            m.append(")");
            push_text(blocking, m);
            proof {
                assert(base + drop_messages(drops@.take(i as int), *config).push(
                    drop_message(drops@[i as int], *config),
                ) =~= (base + drop_messages(drops@.take(i as int), *config)).push(
                    drop_message(drops@[i as int], *config),
                ));
            }
        }
        i = i + 1;
    }
    assert(drops@.take(i as int) =~= drops@);
}

fn push_reason_messages(
    blocking: &mut Vec<String>,
    recommendations: &mut Vec<String>,
    reasons: &Vec<DegradedModeReason>,
)
    ensures
        texts(final(blocking)@) == texts(old(blocking)@) + reason_messages(reasons@, true),
        texts(final(recommendations)@) == texts(old(recommendations)@) + reason_messages(
            reasons@,
            false,
        ),
{
    let ghost base_b = texts(blocking@);
    let ghost base_r = texts(recommendations@);
    let mut i: usize = 0;
    while i < reasons.len()
        invariant
            i <= reasons@.len(),
            texts(blocking@) == base_b + reason_messages(reasons@.take(i as int), true),
            texts(recommendations@) == base_r + reason_messages(reasons@.take(i as int), false),
        decreases reasons@.len() - i,
    {
        proof {
            assert(reasons@.take(i + 1).drop_last() =~= reasons@.take(i as int));
        }
        let reason = reasons[i];
        if reason.is_security_critical() {
            let mut m = owned("security-critical degradation: ");
            m.append(reason.as_str());
            push_text(blocking, m);
            proof {
                let b = reason_messages(reasons@.take(i as int), true);
                assert((base_b + b).push(m@) =~= base_b + b.push(m@));
            }
        } else {
            let mut m = owned("degraded-mode active: ");
            m.append(reason.as_str());
            push_text(recommendations, m);
            proof {
                let b = reason_messages(reasons@.take(i as int), false);
                assert((base_r + b).push(m@) =~= base_r + b.push(m@));
            }
        }
        i = i + 1;
    }
    assert(reasons@.take(i as int) =~= reasons@);
}

/// Perform the full governance gate evaluation: conformance, replay drops,
/// degraded mode and observability overhead combine into a verdict with its
/// blocking reasons, recommendations and receipt hash.
pub fn evaluate(
    conformance: &ConformanceVector,
    drops: &[ReplayDropRecord],
    degraded: &[DegradedModeRecord],
    observability: Option<&ObservabilityDelta>,
    config: &GateConfig,
) -> (r: GateResult)
    ensures
        ({
            let obs = match observability {
                Some(d) => Some(*d),
                None => None,
            };
            &&& r.conformance_level == conformance_level_of(*conformance, *config)
            &&& r.degraded_reasons@ == active_reasons(degraded@, *config)
            &&& texts(r.blocking_reasons@) == blocking_of(*conformance, drops@, degraded@, *config)
            &&& texts(r.recommendations@) == recommendations_of(*conformance, degraded@, obs, *config)
            &&& r.verdict == verdict_of(*conformance, drops@, degraded@, obs, *config)
            &&& r.receipt_hash@ == sha256_digest(
                sha256_digest(evaluation_input(*conformance, drops@, degraded@, obs, r.verdict)),
            )
        }),
{
    let ghost obs = match observability {
        Some(d) => Some(*d),
        None => None,
    };
    let mut blocking_reasons: Vec<String> = Vec::new();
    let mut recommendations: Vec<String> = Vec::new();
    let conformance_level = evaluate_conformance(conformance, config);
    match conformance_level {
        ConformanceLevel::Full => {},
        ConformanceLevel::Partial => {
            let mut m = owned("conformance partial: ");
            m.append(u64_to_decimal(conformance.operations_passed).as_str());
            m.append("/");
            m.append(u64_to_decimal(conformance.operations_tested).as_str());
            m.append(" operations passed");
            push_text(&mut recommendations, m);
        },
        ConformanceLevel::Degraded => {
            let mut m = owned("conformance degraded: fraction ");
            m.append(u64_to_decimal(conformance.conformance_fraction).as_str());
            m.append(" below threshold ");
            m.append(u64_to_decimal(config.min_conformance_fraction).as_str());
            push_text(&mut recommendations, m);
        },
        ConformanceLevel::NonConformant => {
            let mut m = owned("non-conformant: fraction ");
            m.append(u64_to_decimal(conformance.conformance_fraction).as_str());
            m.append(" below threshold ");
            m.append(u64_to_decimal(config.min_conformance_fraction).as_str());
            m.append(" (tested ");
            m.append(u64_to_decimal(conformance.operations_tested).as_str());
            m.append(")");
            push_text(&mut blocking_reasons, m);
        },
    }
    assert(texts(blocking_reasons@) =~= conformance_blocking(*conformance, *config));
    assert(texts(recommendations@) =~= conformance_recommendation(*conformance, *config));
    let drops_ok = evaluate_replay_drops(drops, config);
    if !drops_ok {
        push_drop_messages(&mut blocking_reasons, drops, config);
    } else {
        proof {
            lemma_no_drop_messages(drops@, *config);
            assert(texts(blocking_reasons@) =~= texts(blocking_reasons@) + drop_messages(
                drops@,
                *config,
            ));
        }
    }
    let degraded_reasons = evaluate_degraded_mode(degraded, config);
    push_reason_messages(&mut blocking_reasons, &mut recommendations, &degraded_reasons);
    let ghost recs_before = texts(recommendations@);
    match observability {
        Some(delta) => {
            if delta.overhead_fraction > config.max_observability_overhead {
                let mut m = owned("observability overhead ");
                m.append(u64_to_decimal(delta.overhead_fraction).as_str());
                m.append(" exceeds max ");
                m.append(u64_to_decimal(config.max_observability_overhead).as_str());
                push_text(&mut recommendations, m);
            }
        },
        None => {},
    }
    assert(texts(recommendations@) =~= recs_before + observability_recommendation(obs, *config));
    assert(texts(blocking_reasons@) =~= blocking_of(*conformance, drops@, degraded@, *config));
    assert(texts(recommendations@) =~= recommendations_of(*conformance, degraded@, obs, *config));
    let verdict = if blocking_reasons.len() > 0 {
        GateVerdict::Fail
    } else if degraded_reasons.len() > 0 {
        GateVerdict::DegradedMode
    } else if recommendations.len() > 0 {
        GateVerdict::ConditionalPass
    } else {
        GateVerdict::Pass
    };
    let mut data: Vec<u8> = Vec::new();
    push_str(&mut data, COMPONENT);
    push_str(&mut data, conformance.session_id.as_str());
    push_u64_le(&mut data, conformance.conformance_fraction);
    push_u64_le(&mut data, drops.len() as u64);
    let ghost h0 = data@;
    let mut i: usize = 0;
    while i < drops.len()
        invariant
            i <= drops@.len(),
            data@ == h0 + drop_rate_bytes(drops@.take(i as int)),
        decreases drops@.len() - i,
    {
        push_u64_le(&mut data, drops[i].drop_rate);
        proof {
            assert(drops@.take(i + 1).drop_last() =~= drops@.take(i as int));
            assert(data@ =~= h0 + drop_rate_bytes(drops@.take(i + 1)));
        }
        i = i + 1;
    }
    assert(drops@.take(i as int) =~= drops@);
    push_u64_le(&mut data, degraded.len() as u64);
    let ghost h1 = data@;
    let mut i: usize = 0;
    while i < degraded.len()
        invariant
            i <= degraded@.len(),
            data@ == h1 + severity_bytes(degraded@.take(i as int)),
        decreases degraded@.len() - i,
    {
        push_u64_le(&mut data, degraded[i].severity);
        proof {
            assert(degraded@.take(i + 1).drop_last() =~= degraded@.take(i as int));
            assert(data@ =~= h1 + severity_bytes(degraded@.take(i + 1)));
        }
        i = i + 1;
    }
    assert(degraded@.take(i as int) =~= degraded@);
    let ghost h2 = data@;
    match observability {
        Some(delta) => push_u64_le(&mut data, delta.overhead_fraction),
        None => {},
    }
    push_str(&mut data, verdict.as_str());
    assert(data@ =~= evaluation_input(*conformance, drops@, degraded@, obs, verdict));
    let digest = ContentHash::compute(data.as_slice());
    GateResult {
        verdict,
        conformance_level,
        degraded_reasons,
        blocking_reasons,
        recommendations,
        receipt_hash: ContentHash::compute(digest.as_bytes()),
    }
}

// ---------------------------------------------------------------------------
// Laws
// ---------------------------------------------------------------------------

/// A security-critical degradation always yields Fail, whatever the
/// other evidence.
pub proof fn law_security_violation_fails(
    v: ConformanceVector,
    drops: Seq<ReplayDropRecord>,
    degraded: Seq<DegradedModeRecord>,
    observability: Option<ObservabilityDelta>,
    config: GateConfig,
    k: int,
)
    requires
        0 <= k < degraded.len(),
        degraded[k].reason == DegradedModeReason::SecurityViolation,
    ensures
        verdict_of(v, drops, degraded, observability, config) == GateVerdict::Fail,
{
    lemma_active_contains(degraded, config, k);
    let reasons = active_reasons(degraded, config);
    let j = choose|j: int| 0 <= j < reasons.len() && reasons[j] == DegradedModeReason::SecurityViolation;
    lemma_critical_message(reasons, j);
}

proof fn lemma_active_contains(records: Seq<DegradedModeRecord>, config: GateConfig, k: int)
    requires
        0 <= k < records.len(),
        record_active(records[k], config),
    ensures
        active_reasons(records, config).contains(records[k].reason),
    decreases records.len(),
{
    let rest = active_reasons(records.drop_last(), config);
    if k < records.len() - 1 {
        assert(records.drop_last()[k] == records[k]);
        lemma_active_contains(records.drop_last(), config, k);
        let j = choose|j: int| 0 <= j < rest.len() && rest[j] == records[k].reason;
        if record_active(records.last(), config) && !rest.contains(records.last().reason) {
            assert(rest.push(records.last().reason)[j] == records[k].reason);
        }
    } else {
        if !rest.contains(records.last().reason) {
            assert(rest.push(records.last().reason)[rest.len() as int] == records.last().reason);
        }
    }
}

proof fn lemma_critical_message(reasons: Seq<DegradedModeReason>, j: int)
    requires
        0 <= j < reasons.len(),
        reasons[j] == DegradedModeReason::SecurityViolation,
    ensures
        reason_messages(reasons, true).len() > 0,
    decreases reasons.len(),
{
    if j < reasons.len() - 1 {
        assert(reasons.drop_last()[j] == reasons[j]);
        lemma_critical_message(reasons.drop_last(), j);
    }
}

/// A replay-drop rate above the maximum always yields Fail.
pub proof fn law_excess_drop_fails(
    v: ConformanceVector,
    drops: Seq<ReplayDropRecord>,
    degraded: Seq<DegradedModeRecord>,
    observability: Option<ObservabilityDelta>,
    config: GateConfig,
    k: int,
)
    requires
        0 <= k < drops.len(),
        drops[k].drop_rate > config.max_replay_drop_rate,
    ensures
        verdict_of(v, drops, degraded, observability, config) == GateVerdict::Fail,
{
    lemma_drop_message_present(drops, config, k);
}

proof fn lemma_drop_message_present(drops: Seq<ReplayDropRecord>, config: GateConfig, k: int)
    requires
        0 <= k < drops.len(),
        drops[k].drop_rate > config.max_replay_drop_rate,
    ensures
        drop_messages(drops, config).len() > 0,
    decreases drops.len(),
{
    if k < drops.len() - 1 {
        assert(drops.drop_last()[k] == drops[k]);
        lemma_drop_message_present(drops.drop_last(), config, k);
    }
}

/// Too few tested operations make a session non-conformant, and a
/// non-conformant session is given Fail.
pub proof fn law_untested_session_fails(
    v: ConformanceVector,
    drops: Seq<ReplayDropRecord>,
    degraded: Seq<DegradedModeRecord>,
    observability: Option<ObservabilityDelta>,
    config: GateConfig,
)
    requires
        v.operations_tested < config.min_operations_tested,
    ensures
        conformance_level_of(v, config) == ConformanceLevel::NonConformant,
        verdict_of(v, drops, degraded, observability, config) == GateVerdict::Fail,
{
}

/// A clean pass has no blocking reason, no active degradation and no
/// recommendation.
pub proof fn law_pass_is_clean(
    v: ConformanceVector,
    drops: Seq<ReplayDropRecord>,
    degraded: Seq<DegradedModeRecord>,
    observability: Option<ObservabilityDelta>,
    config: GateConfig,
)
    requires
        verdict_of(v, drops, degraded, observability, config) == GateVerdict::Pass,
    ensures
        blocking_of(v, drops, degraded, config).len() == 0,
        active_reasons(degraded, config).len() == 0,
        recommendations_of(v, degraded, observability, config).len() == 0,
        conformance_level_of(v, config) == ConformanceLevel::Full,
{
}

/// Drop messages appear exactly when some drop rate is above the maximum.
proof fn lemma_drop_messages_iff(drops: Seq<ReplayDropRecord>, config: GateConfig)
    ensures
        (drop_messages(drops, config).len() > 0) == !drops_acceptable(drops, config),
    decreases drops.len(),
{
    if drops.len() > 0 {
        lemma_drop_messages_iff(drops.drop_last(), config);
        if !drops_acceptable(drops, config) {
            let k = choose|k: int| 0 <= k < drops.len() && !((#[trigger] drops[k]).drop_rate
                <= config.max_replay_drop_rate);
            lemma_drop_message_present(drops, config, k);
        } else {
            assert forall|k: int| 0 <= k < drops.drop_last().len() implies (
            #[trigger] drops.drop_last()[k]).drop_rate <= config.max_replay_drop_rate by {
                assert(drops.drop_last()[k] == drops[k]);
            }
            assert(drops.last() == drops[drops.len() - 1]);
        }
    }
}

/// Security-critical messages appear exactly when a security violation is
/// among the reasons.
proof fn lemma_critical_messages_iff(reasons: Seq<DegradedModeReason>)
    ensures
        (reason_messages(reasons, true).len() > 0) == reasons.contains(DegradedModeReason::SecurityViolation),
    decreases reasons.len(),
{
    if reasons.len() > 0 {
        lemma_critical_messages_iff(reasons.drop_last());
        if reasons.contains(DegradedModeReason::SecurityViolation) {
            let j = choose|j: int| 0 <= j < reasons.len() && reasons[j] == DegradedModeReason::SecurityViolation;
            lemma_critical_message(reasons, j);
        } else {
            assert(!reasons.drop_last().contains(DegradedModeReason::SecurityViolation)) by {
                if reasons.drop_last().contains(DegradedModeReason::SecurityViolation) {
                    let j = choose|j: int|
                        0 <= j < reasons.drop_last().len() && reasons.drop_last()[j]
                            == DegradedModeReason::SecurityViolation;
                    assert(reasons[j] == reasons.drop_last()[j]);
                }
            }
            assert(reasons.last() == reasons[reasons.len() - 1]);
        }
    }
}

/// Evaluation outcome, case by case: Fail when the session is
/// non-conformant, some drop rate is above the maximum, or a security
/// violation is among the active degraded reasons; otherwise DegradedMode
/// when any degraded reason is active; otherwise ConditionalPass when
/// conformance is partial or degraded or observability overhead is above
/// its maximum; otherwise Pass.
pub proof fn law_gate_verdict_cases(
    v: ConformanceVector,
    drops: Seq<ReplayDropRecord>,
    degraded: Seq<DegradedModeRecord>,
    observability: Option<ObservabilityDelta>,
    config: GateConfig,
)
    ensures
        verdict_of(v, drops, degraded, observability, config) == ({
            let lvl = conformance_level_of(v, config);
            let r = active_reasons(degraded, config);
            if lvl == ConformanceLevel::NonConformant || !drops_acceptable(drops, config) || r.contains(
                DegradedModeReason::SecurityViolation,
            ) {
                GateVerdict::Fail
            } else if r.len() > 0 {
                GateVerdict::DegradedMode
            } else if lvl == ConformanceLevel::Partial || lvl == ConformanceLevel::Degraded || (
            observability matches Some(d) && d.overhead_fraction > config.max_observability_overhead) {
                GateVerdict::ConditionalPass
            } else {
                GateVerdict::Pass
            }
        }),
{
    let r = active_reasons(degraded, config);
    lemma_drop_messages_iff(drops, config);
    lemma_critical_messages_iff(r);
    let b = blocking_of(v, drops, degraded, config);
    assert(b.len() == conformance_blocking(v, config).len() + drop_messages(drops, config).len()
        + reason_messages(r, true).len());
    if r.len() == 0 {
        assert(reason_messages(r, false) =~= Seq::<Seq<char>>::empty());
    }
}

} // verus!
