//! Per-axis conformance governance for hostcall sessions: conformance
//! vectors per protocol axis, per-category replay-drop budgets, degraded-mode
//! policies with recovery semantics, and observability claim deltas with
//! tolerance checking.
//!
//! An evaluator accumulates the evidence and renders a verdict that names the
//! single violated category, or `MultipleViolations` when several categories
//! are violated, together with every violation and a content hash.  All
//! ratios are fixed-point millionths (1_000_000 = 1.0).

use crate::collections::{count_where, lemma_count_where_ext, EnumSet, Ranked};
use crate::foundation::{
    abs_diff, bool_text, bool_to_str, decimal, owned, push_str, push_u64_le, ratio,
    ratio_millionths, sha256_digest, u64_le, u64_to_decimal, utf8, ContentHash, SecurityEpoch,
};
use vstd::prelude::*;

verus! {

/// Schema version.
pub const SCHEMA_VERSION: &'static str = "franken-engine.hostcall-conformance-governance.v1";

/// Component name.
pub const COMPONENT: &'static str = "hostcall_conformance_governance";

/// Bead reference.
pub const BEAD_ID: &'static str = "bd-1lsy.6.5.3";

/// Policy reference.
pub const POLICY_ID: &'static str = "RGC-505C";

/// Default minimum per-axis conformance ratio (90%).
pub const DEFAULT_MIN_CONFORMANCE: u64 = 900_000;

/// Default maximum per-category replay-drop rate (5%).
pub const DEFAULT_MAX_DROP_RATE: u64 = 50_000;

/// Default maximum degraded-mode duration (60 seconds, in nanoseconds).
pub const DEFAULT_MAX_DEGRADED_DURATION_NS: u64 = 60_000_000_000;

/// Default observability claim delta tolerance (5%).
pub const DEFAULT_OBSERVABILITY_TOLERANCE: u64 = 50_000;

/// Default number of conformance axes required for coverage.
pub const DEFAULT_MIN_REQUIRED_AXES: usize = 4;

// ---------------------------------------------------------------------------
// ConformanceAxis
// ---------------------------------------------------------------------------

/// Protocol axis checked for hostcall conformance.
#[derive(Debug, Clone, Copy, PartialEq, Eq, PartialOrd, Ord, Hash, Structural)]
pub enum ConformanceAxis {
    Protocol,
    MessageOrdering,
    Encoding,
    Timeout,
    Authentication,
    Authorization,
}

impl ConformanceAxis {
    /// All axes.
    pub const ALL: [ConformanceAxis; 6] = [
        ConformanceAxis::Protocol,
        ConformanceAxis::MessageOrdering,
        ConformanceAxis::Encoding,
        ConformanceAxis::Timeout,
        ConformanceAxis::Authentication,
        ConformanceAxis::Authorization,
    ];

    /// Stable name of the axis.
    pub open spec fn name(self) -> Seq<char> {
        match self {
            ConformanceAxis::Protocol => "protocol"@,
            ConformanceAxis::MessageOrdering => "ordering"@,
            ConformanceAxis::Encoding => "encoding"@,
            ConformanceAxis::Timeout => "timeout"@,
            ConformanceAxis::Authentication => "authentication"@,
            ConformanceAxis::Authorization => "authorization"@,
        }
    }

    /// Stable name of the axis.
    pub fn as_str(self) -> (r: &'static str)
        ensures
            r@ == self.name(),
    {
        match self {
            ConformanceAxis::Protocol => "protocol",
            ConformanceAxis::MessageOrdering => "ordering",
            ConformanceAxis::Encoding => "encoding",
            ConformanceAxis::Timeout => "timeout",
            ConformanceAxis::Authentication => "authentication",
            ConformanceAxis::Authorization => "authorization",
        }
    }

    /// Display rendering (the stable name).
    pub fn to_string(&self) -> (r: String)
        ensures
            r@ == self.name(),
    {
        owned(self.as_str())
    }
}

impl Ranked for ConformanceAxis {
    open spec fn rank(self) -> nat {
        match self {
            ConformanceAxis::Protocol => 0,
            ConformanceAxis::MessageOrdering => 1,
            ConformanceAxis::Encoding => 2,
            ConformanceAxis::Timeout => 3,
            ConformanceAxis::Authentication => 4,
            ConformanceAxis::Authorization => 5,
        }
    }

    open spec fn variant_count() -> nat {
        6
    }

    open spec fn of_rank(r: nat) -> Self {
        if r == 0 {
            ConformanceAxis::Protocol
        } else if r == 1 {
            ConformanceAxis::MessageOrdering
        } else if r == 2 {
            ConformanceAxis::Encoding
        } else if r == 3 {
            ConformanceAxis::Timeout
        } else if r == 4 {
            ConformanceAxis::Authentication
        } else {
            ConformanceAxis::Authorization
        }
    }

    fn rank_exec(self) -> (r: usize) {
        match self {
            ConformanceAxis::Protocol => 0,
            ConformanceAxis::MessageOrdering => 1,
            ConformanceAxis::Encoding => 2,
            ConformanceAxis::Timeout => 3,
            ConformanceAxis::Authentication => 4,
            ConformanceAxis::Authorization => 5,
        }
    }

    fn count() -> (r: usize) {
        6
    }

    fn from_rank(r: usize) -> (x: Self) {
        ConformanceAxis::ALL[r]
    }

    proof fn lemma_rank(x: Self) {
    }

    proof fn lemma_count() {
    }

    proof fn lemma_of_rank(r: nat) {
    }
}

// ---------------------------------------------------------------------------
// ConformanceResult
// ---------------------------------------------------------------------------

/// `a + b`, clamped at `u64::MAX`.
pub open spec fn sat_add(a: u64, b: u64) -> u64 {
    if a + b > u64::MAX {
        u64::MAX
    } else {
        (a + b) as u64
    }
}

/// Pass/fail rendering.
pub open spec fn pass_text(b: bool) -> Seq<char> {
    if b {
        "PASS"@
    } else {
        "FAIL"@
    }
}

/// Per-axis conformance measurement.
#[derive(Debug, Clone, Copy, PartialEq, Eq, Structural)]
pub struct ConformanceResult {
    pub axis: ConformanceAxis,
    pub pass_count: u64,
    pub fail_count: u64,
    /// Passes over all checks (millionths).
    pub conformance_ratio_millionths: u64,
    /// Whether the ratio meets the threshold.
    pub passes: bool,
}

impl ConformanceResult {
    /// A result from pass/fail counts and a threshold; the ratio is zero
    /// when nothing was checked.
    pub fn new(axis: ConformanceAxis, pass_count: u64, fail_count: u64, threshold: u64) -> (r: Self)
        ensures
            r.axis == axis,
            r.pass_count == pass_count,
            r.fail_count == fail_count,
            r.conformance_ratio_millionths == ratio_millionths(
                pass_count,
                sat_add(pass_count, fail_count),
            ),
            r.passes == (r.conformance_ratio_millionths >= threshold),
    {
        let total = pass_count.saturating_add(fail_count);
        let conformance_ratio_millionths = ratio(pass_count, total);
        ConformanceResult {
            axis,
            pass_count,
            fail_count,
            conformance_ratio_millionths,
            passes: conformance_ratio_millionths >= threshold,
        }
    }

    /// Total checks (pass + fail), clamped.
    pub fn total_count(&self) -> (r: u64)
        ensures
            r == sat_add(self.pass_count, self.fail_count),
    {
        self.pass_count.saturating_add(self.fail_count)
    }

    /// Display rendering `conformance[axis]: pass/total (Nppm) PASS|FAIL`.
    pub fn to_string(&self) -> (r: String)
        ensures
            r@ == "conformance["@ + self.axis.name() + "]: "@ + decimal(self.pass_count as nat)
                + "/"@ + decimal(sat_add(self.pass_count, self.fail_count) as nat) + " ("@
                + decimal(self.conformance_ratio_millionths as nat) + "ppm) "@ + pass_text(
                self.passes,
            ),
    {
        let mut s = owned("conformance[");
        s.append(self.axis.as_str());
        s.append("]: ");
        s.append(u64_to_decimal(self.pass_count).as_str());
        s.append("/");
        s.append(u64_to_decimal(self.total_count()).as_str());
        s.append(" (");
        s.append(u64_to_decimal(self.conformance_ratio_millionths).as_str());
        s.append("ppm) ");
        s.append(if self.passes { "PASS" } else { "FAIL" });
        s
    }
}

// ---------------------------------------------------------------------------
// Replay drops
// ---------------------------------------------------------------------------

/// Root-cause category of replay-dropped messages.
#[derive(Debug, Clone, Copy, PartialEq, Eq, PartialOrd, Ord, Hash, Structural)]
pub enum ReplayDropCategory {
    TimeBudgetExceeded,
    ProtocolMismatch,
    EncodingError,
    AuthenticationFailure,
    PolicyViolation,
}

impl ReplayDropCategory {
    /// All categories.
    pub const ALL: [ReplayDropCategory; 5] = [
        ReplayDropCategory::TimeBudgetExceeded,
        ReplayDropCategory::ProtocolMismatch,
        ReplayDropCategory::EncodingError,
        ReplayDropCategory::AuthenticationFailure,
        ReplayDropCategory::PolicyViolation,
    ];

    /// Stable name of the category.
    pub open spec fn name(self) -> Seq<char> {
        match self {
            ReplayDropCategory::TimeBudgetExceeded => "time_budget_exceeded"@,
            ReplayDropCategory::ProtocolMismatch => "protocol_mismatch"@,
            ReplayDropCategory::EncodingError => "encoding_error"@,
            ReplayDropCategory::AuthenticationFailure => "authentication_failure"@,
            ReplayDropCategory::PolicyViolation => "policy_violation"@,
        }
    }

    /// Stable name of the category.
    pub fn as_str(self) -> (r: &'static str)
        ensures
            r@ == self.name(),
    {
        match self {
            ReplayDropCategory::TimeBudgetExceeded => "time_budget_exceeded",
            ReplayDropCategory::ProtocolMismatch => "protocol_mismatch",
            ReplayDropCategory::EncodingError => "encoding_error",
            ReplayDropCategory::AuthenticationFailure => "authentication_failure",
            ReplayDropCategory::PolicyViolation => "policy_violation",
        }
    }

    /// Whether the category is security-sensitive.
    pub fn is_security_sensitive(self) -> (r: bool)
        ensures
            r == (self == ReplayDropCategory::AuthenticationFailure || self
                == ReplayDropCategory::PolicyViolation),
    {
        match self {
            ReplayDropCategory::AuthenticationFailure | ReplayDropCategory::PolicyViolation => true,
            _ => false,
        }
    }

    /// Display rendering (the stable name).
    pub fn to_string(&self) -> (r: String)
        ensures
            r@ == self.name(),
    {
        owned(self.as_str())
    }
}

/// The drop rate of an entry: drops over replays, full when drops occur in
/// an empty window.
pub open spec fn drop_rate_of(drop_count: u64, total_replays: u64) -> u64 {
    if total_replays == 0 {
        if drop_count == 0 {
            0
        } else {
            1_000_000
        }
    } else {
        ratio_millionths(drop_count, total_replays)
    }
}

/// Budget rendering.
pub open spec fn budget_text(b: bool) -> Seq<char> {
    if b {
        "WITHIN_BUDGET"@
    } else {
        "OVER_BUDGET"@
    }
}

/// Per-category replay-drop telemetry entry.
#[derive(Debug, Clone, Copy, PartialEq, Eq, Structural)]
pub struct ReplayDropEntry {
    pub category: ReplayDropCategory,
    pub drop_count: u64,
    pub total_replays: u64,
    /// Drops over replays (millionths).
    pub drop_rate_millionths: u64,
    /// Whether the entry is within the configured budget.
    pub within_budget: bool,
}

impl ReplayDropEntry {
    /// An entry with its rate and budget check computed; an empty window is
    /// within budget exactly when nothing was dropped.
    pub fn new(category: ReplayDropCategory, drop_count: u64, total_replays: u64, max_rate: u64) -> (r:
        Self)
        ensures
            r.category == category,
            r.drop_count == drop_count,
            r.total_replays == total_replays,
            r.drop_rate_millionths == drop_rate_of(drop_count, total_replays),
            r.within_budget == if total_replays == 0 {
                drop_count == 0
            } else {
                r.drop_rate_millionths <= max_rate
            },
    {
        let drop_rate_millionths = if total_replays == 0 {
            if drop_count == 0 {
                0
            } else {
                1_000_000
            }
        } else {
            ratio(drop_count, total_replays)
        };
        let within_budget = if total_replays == 0 {
            drop_count == 0
        } else {
            drop_rate_millionths <= max_rate
        };
        ReplayDropEntry { category, drop_count, total_replays, drop_rate_millionths, within_budget }
    }

    /// Display rendering `replay-drop[cat]: drops/total (Nppm) WITHIN_BUDGET|OVER_BUDGET`.
    pub fn to_string(&self) -> (r: String)
        ensures
            r@ == "replay-drop["@ + self.category.name() + "]: "@ + decimal(self.drop_count as nat)
                + "/"@ + decimal(self.total_replays as nat) + " ("@ + decimal(
                self.drop_rate_millionths as nat,
            ) + "ppm) "@ + budget_text(self.within_budget),
    {
        let mut s = owned("replay-drop[");
        s.append(self.category.as_str());
        s.append("]: ");
        s.append(u64_to_decimal(self.drop_count).as_str());
        s.append("/");
        s.append(u64_to_decimal(self.total_replays).as_str());
        s.append(" (");
        s.append(u64_to_decimal(self.drop_rate_millionths).as_str());
        s.append("ppm) ");
        s.append(if self.within_budget { "WITHIN_BUDGET" } else { "OVER_BUDGET" });
        s
    }
}

// ---------------------------------------------------------------------------
// Degraded mode
// ---------------------------------------------------------------------------

/// Flavour of degraded-mode operation.
#[derive(Debug, Clone, Copy, PartialEq, Eq, PartialOrd, Ord, Hash, Structural)]
pub enum DegradedModeKind {
    ReducedBandwidth,
    IncreasedLatency,
    PartialFunctionality,
    ReadOnly,
    Disconnected,
}

impl DegradedModeKind {
    /// All kinds.
    pub const ALL: [DegradedModeKind; 5] = [
        DegradedModeKind::ReducedBandwidth,
        DegradedModeKind::IncreasedLatency,
        DegradedModeKind::PartialFunctionality,
        DegradedModeKind::ReadOnly,
        DegradedModeKind::Disconnected,
    ];

    /// Stable name of the kind.
    pub open spec fn name(self) -> Seq<char> {
        match self {
            DegradedModeKind::ReducedBandwidth => "reduced_bandwidth"@,
            DegradedModeKind::IncreasedLatency => "increased_latency"@,
            DegradedModeKind::PartialFunctionality => "partial_functionality"@,
            DegradedModeKind::ReadOnly => "read_only"@,
            DegradedModeKind::Disconnected => "disconnected"@,
        }
    }

    /// Stable name of the kind.
    pub fn as_str(self) -> (r: &'static str)
        ensures
            r@ == self.name(),
    {
        match self {
            DegradedModeKind::ReducedBandwidth => "reduced_bandwidth",
            DegradedModeKind::IncreasedLatency => "increased_latency",
            DegradedModeKind::PartialFunctionality => "partial_functionality",
            DegradedModeKind::ReadOnly => "read_only",
            DegradedModeKind::Disconnected => "disconnected",
        }
    }

    /// Severity rank (higher is more degraded).
    pub fn severity_rank(self) -> (r: u32)
        ensures
            r == match self {
                DegradedModeKind::ReducedBandwidth => 1u32,
                DegradedModeKind::IncreasedLatency => 2u32,
                DegradedModeKind::PartialFunctionality => 3u32,
                DegradedModeKind::ReadOnly => 4u32,
                DegradedModeKind::Disconnected => 5u32,
            },
    {
        match self {
            DegradedModeKind::ReducedBandwidth => 1,
            DegradedModeKind::IncreasedLatency => 2,
            DegradedModeKind::PartialFunctionality => 3,
            DegradedModeKind::ReadOnly => 4,
            DegradedModeKind::Disconnected => 5,
        }
    }

    /// Whether the kind is terminal (cannot auto-recover).
    pub fn is_terminal(self) -> (r: bool)
        ensures
            r == (self == DegradedModeKind::Disconnected),
    {
        self == DegradedModeKind::Disconnected
    }

    /// Display rendering (the stable name).
    pub fn to_string(&self) -> (r: String)
        ensures
            r@ == self.name(),
    {
        owned(self.as_str())
    }
}

/// Policy governing a degraded-mode episode.
#[derive(Debug, Clone, Copy, PartialEq, Eq, Structural)]
pub struct DegradedModePolicy {
    pub kind: DegradedModeKind,
    /// Maximum duration (nanoseconds) before escalation.
    pub max_duration_ns: u64,
    /// Whether an operator acknowledgement is required to continue.
    pub requires_operator_ack: bool,
    /// Whether the session can auto-recover from this state.
    pub auto_recovery: bool,
}

impl DegradedModePolicy {
    /// The default policy of a kind.
    pub open spec fn for_kind_spec(kind: DegradedModeKind) -> DegradedModePolicy {
        match kind {
            DegradedModeKind::ReducedBandwidth => DegradedModePolicy {
                kind,
                max_duration_ns: DEFAULT_MAX_DEGRADED_DURATION_NS,
                requires_operator_ack: false,
                auto_recovery: true,
            },
            DegradedModeKind::IncreasedLatency => DegradedModePolicy {
                kind,
                max_duration_ns: DEFAULT_MAX_DEGRADED_DURATION_NS,
                requires_operator_ack: false,
                auto_recovery: true,
            },
            DegradedModeKind::PartialFunctionality => DegradedModePolicy {
                kind,
                max_duration_ns: 120_000_000_000,
                requires_operator_ack: true,
                auto_recovery: true,
            },
            DegradedModeKind::ReadOnly => DegradedModePolicy {
                kind,
                max_duration_ns: 300_000_000_000,
                requires_operator_ack: true,
                auto_recovery: false,
            },
            DegradedModeKind::Disconnected => DegradedModePolicy {
                kind,
                max_duration_ns: 0,
                requires_operator_ack: true,
                auto_recovery: false,
            },
        }
    }

    /// The default policy for a kind.
    pub fn for_kind(kind: DegradedModeKind) -> (r: Self)
        ensures
            r == DegradedModePolicy::for_kind_spec(kind),
    {
        match kind {
            DegradedModeKind::ReducedBandwidth => DegradedModePolicy {
                kind,
                max_duration_ns: DEFAULT_MAX_DEGRADED_DURATION_NS,
                requires_operator_ack: false,
                auto_recovery: true,
            },
            DegradedModeKind::IncreasedLatency => DegradedModePolicy {
                kind,
                max_duration_ns: DEFAULT_MAX_DEGRADED_DURATION_NS,
                requires_operator_ack: false,
                auto_recovery: true,
            },
            DegradedModeKind::PartialFunctionality => DegradedModePolicy {
                kind,
                max_duration_ns: DEFAULT_MAX_DEGRADED_DURATION_NS * 2,
                requires_operator_ack: true,
                auto_recovery: true,
            },
            DegradedModeKind::ReadOnly => DegradedModePolicy {
                kind,
                max_duration_ns: DEFAULT_MAX_DEGRADED_DURATION_NS * 5,
                requires_operator_ack: true,
                auto_recovery: false,
            },
            DegradedModeKind::Disconnected => DegradedModePolicy {
                kind,
                max_duration_ns: 0,
                requires_operator_ack: true,
                auto_recovery: false,
            },
        }
    }

    /// Whether a duration exceeds the policy limit.
    pub fn exceeds_duration(&self, duration_ns: u64) -> (r: bool)
        ensures
            r == (duration_ns > self.max_duration_ns),
    {
        duration_ns > self.max_duration_ns
    }

    /// Whether the session can heal without operator intervention.
    pub fn can_auto_recover(&self) -> (r: bool)
        ensures
            r == (self.auto_recovery && self.kind != DegradedModeKind::Disconnected),
    {
        self.auto_recovery && !self.kind.is_terminal()
    }

    /// Display rendering `degraded-policy[kind]: max_ns=N ack=B auto=B`.
    pub fn to_string(&self) -> (r: String)
        ensures
            r@ == "degraded-policy["@ + self.kind.name() + "]: max_ns="@ + decimal(
                self.max_duration_ns as nat,
            ) + " ack="@ + bool_text(self.requires_operator_ack) + " auto="@ + bool_text(
                self.auto_recovery,
            ),
    {
        let mut s = owned("degraded-policy[");
        s.append(self.kind.as_str());
        s.append("]: max_ns=");
        s.append(u64_to_decimal(self.max_duration_ns).as_str());
        s.append(" ack=");
        s.append(bool_to_str(self.requires_operator_ack));
        s.append(" auto=");
        s.append(bool_to_str(self.auto_recovery));
        s
    }
}

/// A violation of a degraded-mode policy.
#[derive(Debug, Clone, Copy, PartialEq, Eq, Structural)]
pub struct DegradedModeViolation {
    pub kind: DegradedModeKind,
    pub observed_duration_ns: u64,
    pub max_duration_ns: u64,
    /// Whether a required operator acknowledgement was missing.
    pub missing_operator_ack: bool,
}

impl DegradedModeViolation {
    /// Display rendering of the violation.
    pub open spec fn text(self) -> Seq<char> {
        "degraded-violation["@ + self.kind.name() + "]: observed="@ + decimal(
            self.observed_duration_ns as nat,
        ) + "ns max="@ + decimal(self.max_duration_ns as nat) + "ns ack_missing="@ + bool_text(
            self.missing_operator_ack,
        )
    }

    /// Display rendering of the violation.
    pub fn to_string(&self) -> (r: String)
        ensures
            r@ == self.text(),
    {
        let mut s = owned("degraded-violation[");
        s.append(self.kind.as_str());
        s.append("]: observed=");
        s.append(u64_to_decimal(self.observed_duration_ns).as_str());
        s.append("ns max=");
        s.append(u64_to_decimal(self.max_duration_ns).as_str());
        s.append("ns ack_missing=");
        s.append(bool_to_str(self.missing_operator_ack));
        s
    }
}

// ---------------------------------------------------------------------------
// Observability claim deltas
// ---------------------------------------------------------------------------

/// Tolerance rendering.
pub open spec fn tolerance_text(b: bool) -> Seq<char> {
    if b {
        "WITHIN"@
    } else {
        "DRIFTED"@
    }
}

/// Drift between a baseline observability claim and the observed value.
#[derive(Debug, Clone, PartialEq, Eq)]
pub struct ObservabilityClaimDelta {
    pub claim_id: String,
    /// Baseline value (millionths).
    pub baseline_millionths: u64,
    /// Observed value (millionths).
    pub observed_millionths: u64,
    /// Absolute difference (millionths).
    pub delta_millionths: u64,
    /// Whether the delta is within the tolerance.
    pub within_tolerance: bool,
}

impl ObservabilityClaimDelta {
    /// A delta from baseline and observed values and a tolerance.
    pub fn new(claim_id: &str, baseline_millionths: u64, observed_millionths: u64, tolerance: u64) -> (r:
        Self)
        ensures
            r.claim_id@ == claim_id@,
            r.baseline_millionths == baseline_millionths,
            r.observed_millionths == observed_millionths,
            r.delta_millionths == abs_diff(observed_millionths, baseline_millionths),
            r.within_tolerance == (r.delta_millionths <= tolerance),
    {
        let delta_millionths = if observed_millionths >= baseline_millionths {
            observed_millionths - baseline_millionths
        } else {
            baseline_millionths - observed_millionths
        };
        ObservabilityClaimDelta {
            claim_id: owned(claim_id),
            baseline_millionths,
            observed_millionths,
            delta_millionths,
            within_tolerance: delta_millionths <= tolerance,
        }
    }

    /// Drift relative to the baseline (millionths); full drift against a
    /// zero baseline unless nothing moved.
    pub fn relative_drift_millionths(&self) -> (r: u64)
        ensures
            r == if self.baseline_millionths == 0 {
                if self.delta_millionths == 0 {
                    0
                } else {
                    1_000_000
                }
            } else {
                ratio_millionths(self.delta_millionths, self.baseline_millionths)
            },
    {
        if self.baseline_millionths == 0 {
            return if self.delta_millionths == 0 {
                0
            } else {
                1_000_000
            };
        }
        ratio(self.delta_millionths, self.baseline_millionths)
    }

    /// Display rendering of the delta.
    pub fn to_string(&self) -> (r: String)
        ensures
            r@ == "claim-delta["@ + self.claim_id@ + "]: baseline="@ + decimal(
                self.baseline_millionths as nat,
            ) + " observed="@ + decimal(self.observed_millionths as nat) + " delta="@ + decimal(
                self.delta_millionths as nat,
            ) + " "@ + tolerance_text(self.within_tolerance),
    {
        let mut s = owned("claim-delta[");
        s.append(self.claim_id.as_str());
        s.append("]: baseline=");
        s.append(u64_to_decimal(self.baseline_millionths).as_str());
        s.append(" observed=");
        s.append(u64_to_decimal(self.observed_millionths).as_str());
        s.append(" delta=");
        s.append(u64_to_decimal(self.delta_millionths).as_str());
        s.append(" ");
        s.append(if self.within_tolerance { "WITHIN" } else { "DRIFTED" });
        s
    }
}

// ---------------------------------------------------------------------------
// GovernanceConfig
// ---------------------------------------------------------------------------

/// Thresholds of every governance check.
#[derive(Debug, Clone, Copy, PartialEq, Eq, Structural)]
pub struct GovernanceConfig {
    /// Minimum per-axis conformance ratio (millionths).
    pub min_conformance: u64,
    /// Maximum per-category replay-drop rate (millionths).
    pub max_drop_rate: u64,
    /// Maximum degraded-mode duration (nanoseconds).
    pub max_degraded_duration: u64,
    /// Observability claim delta tolerance (millionths).
    pub min_observability_tolerance: u64,
    /// Number of conformance axes required for coverage.
    pub required_axes: usize,
}

impl GovernanceConfig {
    /// The default thresholds.
    pub open spec fn default_spec() -> GovernanceConfig {
        GovernanceConfig {
            min_conformance: DEFAULT_MIN_CONFORMANCE,
            max_drop_rate: DEFAULT_MAX_DROP_RATE,
            max_degraded_duration: DEFAULT_MAX_DEGRADED_DURATION_NS,
            min_observability_tolerance: DEFAULT_OBSERVABILITY_TOLERANCE,
            required_axes: DEFAULT_MIN_REQUIRED_AXES,
        }
    }

    /// Strict configuration for production.
    pub fn strict() -> (r: Self)
        ensures
            r == (GovernanceConfig {
                min_conformance: 950_000,
                max_drop_rate: 10_000,
                max_degraded_duration: 30_000_000_000,
                min_observability_tolerance: 20_000,
                required_axes: 6,
            }),
    {
        GovernanceConfig {
            min_conformance: 950_000,
            max_drop_rate: 10_000,
            max_degraded_duration: 30_000_000_000,
            min_observability_tolerance: 20_000,
            required_axes: 6,
        }
    }

    /// Permissive configuration for testing.
    pub fn permissive() -> (r: Self)
        ensures
            r == (GovernanceConfig {
                min_conformance: 500_000,
                max_drop_rate: 200_000,
                max_degraded_duration: u64::MAX,
                min_observability_tolerance: 500_000,
                required_axes: 1,
            }),
    {
        GovernanceConfig {
            min_conformance: 500_000,
            max_drop_rate: 200_000,
            max_degraded_duration: u64::MAX,
            min_observability_tolerance: 500_000,
            required_axes: 1,
        }
    }
}

impl Default for GovernanceConfig {
    fn default() -> (r: Self)
        ensures
            r == GovernanceConfig::default_spec(),
    {
        GovernanceConfig {
            min_conformance: DEFAULT_MIN_CONFORMANCE,
            max_drop_rate: DEFAULT_MAX_DROP_RATE,
            max_degraded_duration: DEFAULT_MAX_DEGRADED_DURATION_NS,
            min_observability_tolerance: DEFAULT_OBSERVABILITY_TOLERANCE,
            required_axes: DEFAULT_MIN_REQUIRED_AXES,
        }
    }
}

// ---------------------------------------------------------------------------
// Verdicts and receipts
// ---------------------------------------------------------------------------

/// Governance decision, aware of several violated categories.
#[derive(Debug, Clone, Copy, PartialEq, Eq, PartialOrd, Ord, Hash, Structural)]
pub enum GovernanceVerdict {
    Approved,
    ConformanceViolation,
    DropRateExceeded,
    DegradedModePolicyViolation,
    ObservabilityDrift,
    InsufficientCoverage,
    MultipleViolations,
}

impl GovernanceVerdict {
    /// All verdicts.
    pub const ALL: [GovernanceVerdict; 7] = [
        GovernanceVerdict::Approved,
        GovernanceVerdict::ConformanceViolation,
        GovernanceVerdict::DropRateExceeded,
        GovernanceVerdict::DegradedModePolicyViolation,
        GovernanceVerdict::ObservabilityDrift,
        GovernanceVerdict::InsufficientCoverage,
        GovernanceVerdict::MultipleViolations,
    ];

    /// Stable name of the verdict.
    pub open spec fn name(self) -> Seq<char> {
        match self {
            GovernanceVerdict::Approved => "approved"@,
            GovernanceVerdict::ConformanceViolation => "conformance_violation"@,
            GovernanceVerdict::DropRateExceeded => "drop_rate_exceeded"@,
            GovernanceVerdict::DegradedModePolicyViolation => "degraded_mode_policy_violation"@,
            GovernanceVerdict::ObservabilityDrift => "observability_drift"@,
            GovernanceVerdict::InsufficientCoverage => "insufficient_coverage"@,
            GovernanceVerdict::MultipleViolations => "multiple_violations"@,
        }
    }

    /// Stable name of the verdict.
    pub fn as_str(self) -> (r: &'static str)
        ensures
            r@ == self.name(),
    {
        match self {
            GovernanceVerdict::Approved => "approved",
            GovernanceVerdict::ConformanceViolation => "conformance_violation",
            GovernanceVerdict::DropRateExceeded => "drop_rate_exceeded",
            GovernanceVerdict::DegradedModePolicyViolation => "degraded_mode_policy_violation",
            GovernanceVerdict::ObservabilityDrift => "observability_drift",
            GovernanceVerdict::InsufficientCoverage => "insufficient_coverage",
            GovernanceVerdict::MultipleViolations => "multiple_violations",
        }
    }

    /// Whether the verdict lets the session proceed.
    pub fn is_approved(self) -> (r: bool)
        ensures
            r == (self == GovernanceVerdict::Approved),
    {
        self == GovernanceVerdict::Approved
    }

    /// Whether the verdict is a failure.
    pub fn is_failure(self) -> (r: bool)
        ensures
            r == (self != GovernanceVerdict::Approved),
    {
        self != GovernanceVerdict::Approved
    }

    /// Display rendering (the stable name).
    pub fn to_string(&self) -> (r: String)
        ensures
            r@ == self.name(),
    {
        owned(self.as_str())
    }
}

/// A violation detected during governance evaluation.
#[derive(Debug, Clone, PartialEq, Eq)]
pub struct ViolationEntry {
    pub category: GovernanceVerdict,
    pub description: String,
}

impl ViolationEntry {
    /// Display rendering `[category] description`.
    pub fn to_string(&self) -> (r: String)
        ensures
            r@ == "["@ + self.category.name() + "] "@ + self.description@,
    {
        let mut s = owned("[");
        s.append(self.category.as_str());
        s.append("] ");
        s.append(self.description.as_str());
        s
    }
}

/// Category and description of each violation.
pub open spec fn violation_view(v: Seq<ViolationEntry>) -> Seq<(GovernanceVerdict, Seq<char>)> {
    v.map_values(|e: ViolationEntry| (e.category, e.description@))
}

/// Auditable receipt of a governance evaluation.
#[derive(Debug, Clone, PartialEq, Eq)]
pub struct GovernanceReceipt {
    pub schema_version: String,
    pub verdict: GovernanceVerdict,
    pub epoch: SecurityEpoch,
    pub conformance_count: usize,
    pub drop_entry_count: usize,
    pub degraded_policy_count: usize,
    pub claim_delta_count: usize,
    /// All violations detected.
    pub violations: Vec<ViolationEntry>,
    pub content_hash: ContentHash,
}

impl GovernanceReceipt {
    /// Total evidence entries.
    pub fn total_entries(&self) -> (r: usize)
        requires
            self.conformance_count + self.drop_entry_count + self.degraded_policy_count
                + self.claim_delta_count <= usize::MAX,
        ensures
            r == self.conformance_count + self.drop_entry_count + self.degraded_policy_count
                + self.claim_delta_count,
    {
        self.conformance_count + self.drop_entry_count + self.degraded_policy_count
            + self.claim_delta_count
    }

    /// Whether the evaluation approved the session.
    pub fn is_approved(&self) -> (r: bool)
        ensures
            r == (self.verdict == GovernanceVerdict::Approved),
    {
        self.verdict.is_approved()
    }

    /// Whether violations were detected.
    pub fn has_violations(&self) -> (r: bool)
        ensures
            r == (self.violations@.len() > 0),
    {
        self.violations.len() > 0
    }

    /// Number of violations.
    pub fn violation_count(&self) -> (r: usize)
        ensures
            r == self.violations@.len(),
    {
        self.violations.len()
    }

    /// Display rendering `receipt[component]: verdict at epoch entries=N violations=M`.
    pub fn to_string(&self) -> (r: String)
        requires
            self.conformance_count + self.drop_entry_count + self.degraded_policy_count
                + self.claim_delta_count <= usize::MAX,
        ensures
            r@ == "receipt["@ + COMPONENT@ + "]: "@ + self.verdict.name() + " at "@ + "epoch:"@
                + decimal(self.epoch.0 as nat) + " entries="@ + decimal(
                (self.conformance_count + self.drop_entry_count + self.degraded_policy_count
                    + self.claim_delta_count) as nat,
            ) + " violations="@ + decimal(self.violations@.len()),
    {
        let mut s = owned("receipt[");
        s.append(COMPONENT);
        s.append("]: ");
        s.append(self.verdict.as_str());
        s.append(" at ");
        s.append(self.epoch.to_string().as_str());
        s.append(" entries=");
        s.append(u64_to_decimal(self.total_entries() as u64).as_str());
        s.append(" violations=");
        s.append(u64_to_decimal(self.violations.len() as u64).as_str());
        s
    }
}

// ---------------------------------------------------------------------------
// Violation specifications
// ---------------------------------------------------------------------------

/// Whether some result covers axis `a`.
pub open spec fn covers(results: Seq<ConformanceResult>, a: ConformanceAxis) -> bool {
    exists|i: int| 0 <= i < results.len() && results[i].axis == a
}

/// Number of distinct axes covered.
pub open spec fn coverage_count(results: Seq<ConformanceResult>) -> nat {
    count_where(|a: ConformanceAxis| covers(results, a), 6)
}

/// The coverage violation, if too few axes are covered.
pub open spec fn coverage_violations(results: Seq<ConformanceResult>, config: GovernanceConfig) -> Seq<
    (GovernanceVerdict, Seq<char>),
> {
    if coverage_count(results) < config.required_axes {
        seq![
            (
                GovernanceVerdict::InsufficientCoverage,
                "only "@ + decimal(coverage_count(results)) + " axes covered, "@ + decimal(
                    config.required_axes as nat,
                ) + " required"@,
            ),
        ]
    } else {
        Seq::empty()
    }
}

/// One violation per failing axis result, in order.
pub open spec fn conformance_violations(results: Seq<ConformanceResult>, config: GovernanceConfig) -> Seq<
    (GovernanceVerdict, Seq<char>),
>
    decreases results.len(),
{
    if results.len() == 0 {
        Seq::empty()
    } else {
        let rest = conformance_violations(results.drop_last(), config);
        let r = results.last();
        if !r.passes {
            rest.push(
                (
                    GovernanceVerdict::ConformanceViolation,
                    "axis "@ + r.axis.name() + " conformance "@ + decimal(
                        r.conformance_ratio_millionths as nat,
                    ) + "ppm below threshold "@ + decimal(config.min_conformance as nat) + "ppm"@,
                ),
            )
        } else {
            rest
        }
    }
}

/// One violation per over-budget replay-drop entry, in order.
pub open spec fn drop_violations(drops: Seq<ReplayDropEntry>, config: GovernanceConfig) -> Seq<
    (GovernanceVerdict, Seq<char>),
>
    decreases drops.len(),
{
    if drops.len() == 0 {
        Seq::empty()
    } else {
        let rest = drop_violations(drops.drop_last(), config);
        let d = drops.last();
        if !d.within_budget {
            rest.push(
                (
                    GovernanceVerdict::DropRateExceeded,
                    "category "@ + d.category.name() + " drop rate "@ + decimal(
                        d.drop_rate_millionths as nat,
                    ) + "ppm exceeds max "@ + decimal(config.max_drop_rate as nat) + "ppm"@,
                ),
            )
        } else {
            rest
        }
    }
}

/// The duration limit an episode is held to: its policy's maximum, capped
/// by the configured maximum degraded-mode duration.
pub open spec fn episode_limit(e: (DegradedModePolicy, u64, bool), limit: u64) -> u64 {
    if e.0.max_duration_ns <= limit {
        e.0.max_duration_ns
    } else {
        limit
    }
}

/// The violation record of a degraded-mode episode.
pub open spec fn episode_violation(e: (DegradedModePolicy, u64, bool), limit: u64) -> DegradedModeViolation {
    DegradedModeViolation {
        kind: e.0.kind,
        observed_duration_ns: e.1,
        max_duration_ns: episode_limit(e, limit),
        missing_operator_ack: e.0.requires_operator_ack && !e.2,
    }
}

/// Whether a degraded-mode episode violates its policy: longer than its
/// policy's maximum or than the configured maximum, or a required
/// acknowledgement missing.
pub open spec fn episode_violated(e: (DegradedModePolicy, u64, bool), limit: u64) -> bool {
    e.1 > e.0.max_duration_ns || e.1 > limit || (e.0.requires_operator_ack && !e.2)
}

/// One violation per violating episode, in order.
pub open spec fn degraded_violations(eps: Seq<(DegradedModePolicy, u64, bool)>, limit: u64) -> Seq<
    (GovernanceVerdict, Seq<char>),
>
    decreases eps.len(),
{
    if eps.len() == 0 {
        Seq::empty()
    } else {
        let rest = degraded_violations(eps.drop_last(), limit);
        if episode_violated(eps.last(), limit) {
            rest.push(
                (
                    GovernanceVerdict::DegradedModePolicyViolation,
                    episode_violation(eps.last(), limit).text(),
                ),
            )
        } else {
            rest
        }
    }
}

/// One violation per drifted claim, in order.
pub open spec fn claim_violations(deltas: Seq<ObservabilityClaimDelta>) -> Seq<
    (GovernanceVerdict, Seq<char>),
>
    decreases deltas.len(),
{
    if deltas.len() == 0 {
        Seq::empty()
    } else {
        let rest = claim_violations(deltas.drop_last());
        let d = deltas.last();
        if !d.within_tolerance {
            rest.push(
                (
                    GovernanceVerdict::ObservabilityDrift,
                    "claim "@ + d.claim_id@ + " drifted "@ + decimal(d.delta_millionths as nat)
                        + "ppm (baseline="@ + decimal(d.baseline_millionths as nat)
                        + ", observed="@ + decimal(d.observed_millionths as nat) + ")"@,
                ),
            )
        } else {
            rest
        }
    }
}

/// One if the sequence is non-empty.
pub open spec fn flag(s: Seq<(GovernanceVerdict, Seq<char>)>) -> nat {
    if s.len() > 0 {
        1
    } else {
        0
    }
}

// ---------------------------------------------------------------------------
// GovernanceEvaluator
// ---------------------------------------------------------------------------

/// Accumulates governance evidence and evaluates it against a config.
#[derive(Debug, Clone, PartialEq, Eq)]
pub struct GovernanceEvaluator {
    pub config: GovernanceConfig,
    pub conformance_results: Vec<ConformanceResult>,
    pub replay_drops: Vec<ReplayDropEntry>,
    /// Degraded-mode episodes: policy, observed duration (ns), acknowledged.
    pub degraded_episodes: Vec<(DegradedModePolicy, u64, bool)>,
    pub claim_deltas: Vec<ObservabilityClaimDelta>,
}

/// Bytes hashed for the conformance results.
pub open spec fn results_bytes(s: Seq<ConformanceResult>) -> Seq<u8>
    decreases s.len(),
{
    if s.len() == 0 {
        Seq::empty()
    } else {
        results_bytes(s.drop_last()) + utf8(s.last().axis.name()) + u64_le(s.last().pass_count)
            + u64_le(s.last().fail_count)
    }
}

/// Bytes hashed for the replay-drop entries.
pub open spec fn drops_bytes(s: Seq<ReplayDropEntry>) -> Seq<u8>
    decreases s.len(),
{
    if s.len() == 0 {
        Seq::empty()
    } else {
        drops_bytes(s.drop_last()) + utf8(s.last().category.name()) + u64_le(s.last().drop_count)
            + u64_le(s.last().total_replays)
    }
}

/// Bytes hashed for the degraded-mode episodes.
pub open spec fn episodes_bytes(s: Seq<(DegradedModePolicy, u64, bool)>) -> Seq<u8>
    decreases s.len(),
{
    if s.len() == 0 {
        Seq::empty()
    } else {
        episodes_bytes(s.drop_last()) + utf8(s.last().0.kind.name()) + u64_le(s.last().1)
    }
}

/// Bytes hashed for the claim deltas.
pub open spec fn deltas_bytes(s: Seq<ObservabilityClaimDelta>) -> Seq<u8>
    decreases s.len(),
{
    if s.len() == 0 {
        Seq::empty()
    } else {
        deltas_bytes(s.drop_last()) + utf8(s.last().claim_id@) + u64_le(
            s.last().baseline_millionths,
        ) + u64_le(s.last().observed_millionths)
    }
}

impl GovernanceEvaluator {
    /// Every violation, grouped by check in evaluation order.
    pub open spec fn violations_spec(self) -> Seq<(GovernanceVerdict, Seq<char>)> {
        coverage_violations(self.conformance_results@, self.config) + conformance_violations(
            self.conformance_results@,
            self.config,
        ) + drop_violations(self.replay_drops@, self.config) + degraded_violations(
            self.degraded_episodes@,
            self.config.max_degraded_duration,
        ) + claim_violations(self.claim_deltas@)
    }

    /// Outcome of the evaluation: Approved with no violation, the single
    /// violated category when only one is violated, and MultipleViolations
    /// otherwise.
    pub open spec fn verdict_spec(self) -> GovernanceVerdict {
        let c = coverage_violations(self.conformance_results@, self.config);
        let f = conformance_violations(self.conformance_results@, self.config);
        let d = drop_violations(self.replay_drops@, self.config);
        let g = degraded_violations(self.degraded_episodes@, self.config.max_degraded_duration);
        let o = claim_violations(self.claim_deltas@);
        let n = flag(c) + flag(f) + flag(d) + flag(g) + flag(o);
        if n == 0 {
            GovernanceVerdict::Approved
        } else if n > 1 {
            GovernanceVerdict::MultipleViolations
        } else if c.len() > 0 {
            GovernanceVerdict::InsufficientCoverage
        } else if f.len() > 0 {
            GovernanceVerdict::ConformanceViolation
        } else if d.len() > 0 {
            GovernanceVerdict::DropRateExceeded
        } else if g.len() > 0 {
            GovernanceVerdict::DegradedModePolicyViolation
        } else {
            GovernanceVerdict::ObservabilityDrift
        }
    }

    /// Bytes hashed into a receipt's content hash.
    pub open spec fn hash_input(self, epoch: SecurityEpoch, verdict: GovernanceVerdict) -> Seq<u8> {
        utf8(SCHEMA_VERSION@) + utf8(COMPONENT@) + u64_le(epoch.0) + u64_le(
            self.conformance_results@.len() as u64,
        ) + results_bytes(self.conformance_results@) + u64_le(self.replay_drops@.len() as u64)
            + drops_bytes(self.replay_drops@) + u64_le(self.degraded_episodes@.len() as u64)
            + episodes_bytes(self.degraded_episodes@) + u64_le(self.claim_deltas@.len() as u64)
            + deltas_bytes(self.claim_deltas@) + utf8(verdict.name())
    }

    /// An evaluator with the default configuration and no evidence.
    pub fn with_defaults() -> (r: Self)
        ensures
            r.config == GovernanceConfig::default_spec(),
            r.conformance_results@.len() == 0,
            r.replay_drops@.len() == 0,
            r.degraded_episodes@.len() == 0,
            r.claim_deltas@.len() == 0,
    {
        GovernanceEvaluator::with_config(GovernanceConfig::default())
    }

    /// An evaluator with the given configuration and no evidence.
    pub fn with_config(config: GovernanceConfig) -> (r: Self)
        ensures
            r.config == config,
            r.conformance_results@.len() == 0,
            r.replay_drops@.len() == 0,
            r.degraded_episodes@.len() == 0,
            r.claim_deltas@.len() == 0,
    {
        GovernanceEvaluator {
            config,
            conformance_results: Vec::new(),
            replay_drops: Vec::new(),
            degraded_episodes: Vec::new(),
            claim_deltas: Vec::new(),
        }
    }

    /// Add a per-axis conformance result, judged against the configured
    /// minimum.
    pub fn add_conformance(&mut self, axis: ConformanceAxis, pass_count: u64, fail_count: u64)
        ensures
            final(self).conformance_results@.drop_last() == old(self).conformance_results@,
            final(self).conformance_results@.len() == old(self).conformance_results@.len() + 1,
            ({
                let r = final(self).conformance_results@.last();
                &&& r.axis == axis
                &&& r.pass_count == pass_count
                &&& r.fail_count == fail_count
                &&& r.conformance_ratio_millionths == ratio_millionths(
                    pass_count,
                    sat_add(pass_count, fail_count),
                )
                &&& r.passes == (r.conformance_ratio_millionths >= old(self).config.min_conformance)
            }),
            final(self).config == old(self).config,
            final(self).replay_drops == old(self).replay_drops,
            final(self).degraded_episodes == old(self).degraded_episodes,
            final(self).claim_deltas == old(self).claim_deltas,
    {
        let result = ConformanceResult::new(axis, pass_count, fail_count, self.config.min_conformance);
        let ghost before = self.conformance_results@;
        self.conformance_results.push(result);
        assert(self.conformance_results@.drop_last() =~= before);
    }

    /// Add a replay-drop entry, judged against the configured maximum rate.
    pub fn add_replay_drop(&mut self, category: ReplayDropCategory, drop_count: u64, total_replays: u64)
        ensures
            final(self).replay_drops@.drop_last() == old(self).replay_drops@,
            final(self).replay_drops@.len() == old(self).replay_drops@.len() + 1,
            ({
                let e = final(self).replay_drops@.last();
                &&& e.category == category
                &&& e.drop_count == drop_count
                &&& e.total_replays == total_replays
                &&& e.drop_rate_millionths == drop_rate_of(drop_count, total_replays)
                &&& e.within_budget == if total_replays == 0 {
                    drop_count == 0
                } else {
                    e.drop_rate_millionths <= old(self).config.max_drop_rate
                }
            }),
            final(self).config == old(self).config,
            final(self).conformance_results == old(self).conformance_results,
            final(self).degraded_episodes == old(self).degraded_episodes,
            final(self).claim_deltas == old(self).claim_deltas,
    {
        let entry = ReplayDropEntry::new(category, drop_count, total_replays, self.config.max_drop_rate);
        let ghost before = self.replay_drops@;
        self.replay_drops.push(entry);
        assert(self.replay_drops@.drop_last() =~= before);
    }

    /// Add a degraded-mode episode under the default policy of its kind.
    pub fn add_degraded_mode(&mut self, kind: DegradedModeKind, observed_duration_ns: u64, operator_acked: bool)
        ensures
            final(self).degraded_episodes@ == old(self).degraded_episodes@.push(
                (DegradedModePolicy::for_kind_spec(kind), observed_duration_ns, operator_acked),
            ),
            final(self).config == old(self).config,
            final(self).conformance_results == old(self).conformance_results,
            final(self).replay_drops == old(self).replay_drops,
            final(self).claim_deltas == old(self).claim_deltas,
    {
        let policy = DegradedModePolicy::for_kind(kind);
        self.degraded_episodes.push((policy, observed_duration_ns, operator_acked));
    }

    /// Add a degraded-mode episode with a custom policy.
    pub fn add_degraded_mode_with_policy(
        &mut self,
        policy: DegradedModePolicy,
        observed_duration_ns: u64,
        operator_acked: bool,
    )
        ensures
            final(self).degraded_episodes@ == old(self).degraded_episodes@.push(
                (policy, observed_duration_ns, operator_acked),
            ),
            final(self).config == old(self).config,
            final(self).conformance_results == old(self).conformance_results,
            final(self).replay_drops == old(self).replay_drops,
            final(self).claim_deltas == old(self).claim_deltas,
    {
        self.degraded_episodes.push((policy, observed_duration_ns, operator_acked));
    }

    /// Add an observability claim delta, judged against the configured
    /// tolerance.
    pub fn add_claim_delta(&mut self, claim_id: &str, baseline_millionths: u64, observed_millionths: u64)
        ensures
            final(self).claim_deltas@.drop_last() == old(self).claim_deltas@,
            final(self).claim_deltas@.len() == old(self).claim_deltas@.len() + 1,
            ({
                let d = final(self).claim_deltas@.last();
                &&& d.claim_id@ == claim_id@
                &&& d.baseline_millionths == baseline_millionths
                &&& d.observed_millionths == observed_millionths
                &&& d.delta_millionths == abs_diff(observed_millionths, baseline_millionths)
                &&& d.within_tolerance == (d.delta_millionths
                    <= old(self).config.min_observability_tolerance)
            }),
            final(self).config == old(self).config,
            final(self).conformance_results == old(self).conformance_results,
            final(self).replay_drops == old(self).replay_drops,
            final(self).degraded_episodes == old(self).degraded_episodes,
    {
        let delta = ObservabilityClaimDelta::new(
            claim_id,
            baseline_millionths,
            observed_millionths,
            self.config.min_observability_tolerance,
        );
        let ghost before = self.claim_deltas@;
        self.claim_deltas.push(delta);
        assert(self.claim_deltas@.drop_last() =~= before);
    }

    /// Number of evidence entries accumulated so far.
    pub fn evidence_count(&self) -> (r: usize)
        requires
            self.conformance_results@.len() + self.replay_drops@.len()
                + self.degraded_episodes@.len() + self.claim_deltas@.len() <= usize::MAX,
        ensures
            r == self.conformance_results@.len() + self.replay_drops@.len()
                + self.degraded_episodes@.len() + self.claim_deltas@.len(),
    {
        self.conformance_results.len() + self.replay_drops.len() + self.degraded_episodes.len()
            + self.claim_deltas.len()
    }

    /// Discard all accumulated evidence.
    pub fn reset(&mut self)
        ensures
            final(self).config == old(self).config,
            final(self).conformance_results@.len() == 0,
            final(self).replay_drops@.len() == 0,
            final(self).degraded_episodes@.len() == 0,
            final(self).claim_deltas@.len() == 0,
    {
        self.conformance_results.clear();
        self.replay_drops.clear();
        self.degraded_episodes.clear();
        self.claim_deltas.clear();
    }
}

// ---------------------------------------------------------------------------
// Evaluation
// ---------------------------------------------------------------------------

fn push_violation(v: &mut Vec<ViolationEntry>, category: GovernanceVerdict, description: String)
    ensures
        violation_view(final(v)@) == violation_view(old(v)@).push((category, description@)),
{
    let ghost before = v@;
    v.push(ViolationEntry { category, description });
    assert(violation_view(v@) =~= violation_view(before).push((category, description@)));
}

fn covered_axes(results: &Vec<ConformanceResult>) -> (r: usize)
    ensures
        r == coverage_count(results@),
{
    let mut set: EnumSet<ConformanceAxis> = EnumSet::new();
    let mut i: usize = 0;
    while i < results.len()
        invariant
            i <= results@.len(),
            forall|a: ConformanceAxis|
                #[trigger] set.has(a) == exists|k: int| 0 <= k < i && results@[k].axis == a,
        decreases results@.len() - i,
    {
        set.insert(results[i].axis);
        proof {
            assert forall|a: ConformanceAxis|
                #[trigger] set.has(a) == exists|k: int| 0 <= k < i + 1 && results@[k].axis == a by {
                if a == results@[i as int].axis {
                    assert(results@[i as int].axis == a);
                }
            }
        }
        i = i + 1;
    }
    proof {
        set.lemma_len_count();
        let p = |a: ConformanceAxis| set.has(a);
        let q = |a: ConformanceAxis| covers(results@, a);
        assert forall|a: ConformanceAxis| #[trigger] p(a) == q(a) by {}
        lemma_count_where_ext(p, q, 6);
    }
    set.len()
}

fn push_conformance_violations(
    v: &mut Vec<ViolationEntry>,
    results: &Vec<ConformanceResult>,
    config: &GovernanceConfig,
)
    ensures
        violation_view(final(v)@) == violation_view(old(v)@) + conformance_violations(
            results@,
            *config,
        ),
{
    let ghost base = violation_view(v@);
    let mut i: usize = 0;
    while i < results.len()
        invariant
            i <= results@.len(),
            violation_view(v@) == base + conformance_violations(results@.take(i as int), *config),
        decreases results@.len() - i,
    {
        proof {
            assert(results@.take(i + 1).drop_last() =~= results@.take(i as int));
        }
        let r = results[i];
        if !r.passes {
            let mut d = owned("axis ");
            d.append(r.axis.as_str());
            d.append(" conformance ");
            d.append(u64_to_decimal(r.conformance_ratio_millionths).as_str());
            d.append("ppm below threshold ");
            d.append(u64_to_decimal(config.min_conformance).as_str());
            d.append("ppm");
            let ghost prev = conformance_violations(results@.take(i as int), *config);
            push_violation(v, GovernanceVerdict::ConformanceViolation, d);
            assert((base + prev).push((GovernanceVerdict::ConformanceViolation, d@)) =~= base
                + prev.push((GovernanceVerdict::ConformanceViolation, d@)));
        }
        i = i + 1;
    }
    assert(results@.take(i as int) =~= results@);
}

fn push_drop_violations(v: &mut Vec<ViolationEntry>, drops: &Vec<ReplayDropEntry>, config: &GovernanceConfig)
    ensures
        violation_view(final(v)@) == violation_view(old(v)@) + drop_violations(drops@, *config),
{
    let ghost base = violation_view(v@);
    let mut i: usize = 0;
    while i < drops.len()
        invariant
            i <= drops@.len(),
            violation_view(v@) == base + drop_violations(drops@.take(i as int), *config),
        decreases drops@.len() - i,
    {
        proof {
            assert(drops@.take(i + 1).drop_last() =~= drops@.take(i as int));
        }
        let e = drops[i];
        if !e.within_budget {
            let mut d = owned("category ");
            d.append(e.category.as_str());
            d.append(" drop rate ");
            d.append(u64_to_decimal(e.drop_rate_millionths).as_str());
            d.append("ppm exceeds max ");
            d.append(u64_to_decimal(config.max_drop_rate).as_str());
            d.append("ppm");
            let ghost prev = drop_violations(drops@.take(i as int), *config);
            push_violation(v, GovernanceVerdict::DropRateExceeded, d);
            assert((base + prev).push((GovernanceVerdict::DropRateExceeded, d@)) =~= base
                + prev.push((GovernanceVerdict::DropRateExceeded, d@)));
        }
        i = i + 1;
    }
    assert(drops@.take(i as int) =~= drops@);
}

fn push_degraded_violations(v: &mut Vec<ViolationEntry>, eps: &Vec<(DegradedModePolicy, u64, bool)>, limit: u64)
    ensures
        violation_view(final(v)@) == violation_view(old(v)@) + degraded_violations(eps@, limit),
{
    let ghost base = violation_view(v@);
    let mut i: usize = 0;
    while i < eps.len()
        invariant
            i <= eps@.len(),
            violation_view(v@) == base + degraded_violations(eps@.take(i as int), limit),
        decreases eps@.len() - i,
    {
        proof {
            assert(eps@.take(i + 1).drop_last() =~= eps@.take(i as int));
        }
        let (policy, observed_ns, operator_acked) = eps[i];
        let mut violated = false;
        let mut missing_ack = false;
        if policy.exceeds_duration(observed_ns) || observed_ns > limit {
            violated = true;
        }
        if policy.requires_operator_ack && !operator_acked {
            violated = true;
            missing_ack = true;
        }
        if violated {
            let max_ns = if policy.max_duration_ns <= limit {
                policy.max_duration_ns
            } else {
                limit
            };
            let violation = DegradedModeViolation {
                kind: policy.kind,
                observed_duration_ns: observed_ns,
                max_duration_ns: max_ns,
                missing_operator_ack: missing_ack,
            };
            let ghost prev = degraded_violations(eps@.take(i as int), limit);
            let d = violation.to_string();
            push_violation(v, GovernanceVerdict::DegradedModePolicyViolation, d);
            assert((base + prev).push((GovernanceVerdict::DegradedModePolicyViolation, d@)) =~= base
                + prev.push((GovernanceVerdict::DegradedModePolicyViolation, d@)));
        }
        i = i + 1;
    }
    assert(eps@.take(i as int) =~= eps@);
}

fn push_claim_violations(v: &mut Vec<ViolationEntry>, deltas: &Vec<ObservabilityClaimDelta>)
    ensures
        violation_view(final(v)@) == violation_view(old(v)@) + claim_violations(deltas@),
{
    let ghost base = violation_view(v@);
    let mut i: usize = 0;
    while i < deltas.len()
        invariant
            i <= deltas@.len(),
            violation_view(v@) == base + claim_violations(deltas@.take(i as int)),
        decreases deltas@.len() - i,
    {
        proof {
            assert(deltas@.take(i + 1).drop_last() =~= deltas@.take(i as int));
        }
        let delta = &deltas[i];
        if !delta.within_tolerance {
            let mut d = owned("claim ");
            d.append(delta.claim_id.as_str());
            d.append(" drifted ");
            d.append(u64_to_decimal(delta.delta_millionths).as_str());
            d.append("ppm (baseline=");
            d.append(u64_to_decimal(delta.baseline_millionths).as_str());
            d.append(", observed=");
            d.append(u64_to_decimal(delta.observed_millionths).as_str());
            d.append(")");
            let ghost prev = claim_violations(deltas@.take(i as int));
            push_violation(v, GovernanceVerdict::ObservabilityDrift, d);
            assert((base + prev).push((GovernanceVerdict::ObservabilityDrift, d@)) =~= base
                + prev.push((GovernanceVerdict::ObservabilityDrift, d@)));
        }
        i = i + 1;
    }
    assert(deltas@.take(i as int) =~= deltas@);
}

impl GovernanceEvaluator {
    fn hash_bytes(&self, epoch: SecurityEpoch, verdict: GovernanceVerdict) -> (r: Vec<u8>)
        ensures
            r@ == self.hash_input(epoch, verdict),
    {
        let mut data: Vec<u8> = Vec::new();
        push_str(&mut data, SCHEMA_VERSION);
        push_str(&mut data, COMPONENT);
        push_u64_le(&mut data, epoch.as_u64());
        push_u64_le(&mut data, self.conformance_results.len() as u64);
        let ghost h0 = data@;
        let mut i: usize = 0;
        while i < self.conformance_results.len()
            invariant
                i <= self.conformance_results@.len(),
                data@ == h0 + results_bytes(self.conformance_results@.take(i as int)),
            decreases self.conformance_results@.len() - i,
        {
            let r = self.conformance_results[i];
            push_str(&mut data, r.axis.as_str());
            push_u64_le(&mut data, r.pass_count);
            push_u64_le(&mut data, r.fail_count);
            proof {
                let s = self.conformance_results@;
                assert(s.take(i + 1).drop_last() =~= s.take(i as int));
                assert(data@ =~= h0 + results_bytes(s.take(i + 1)));
            }
            i = i + 1;
        }
        assert(self.conformance_results@.take(i as int) =~= self.conformance_results@);
        push_u64_le(&mut data, self.replay_drops.len() as u64);
        let ghost h1 = data@;
        let mut i: usize = 0;
        while i < self.replay_drops.len()
            invariant
                i <= self.replay_drops@.len(),
                data@ == h1 + drops_bytes(self.replay_drops@.take(i as int)),
            decreases self.replay_drops@.len() - i,
        {
            let d = self.replay_drops[i];
            push_str(&mut data, d.category.as_str());
            push_u64_le(&mut data, d.drop_count);
            push_u64_le(&mut data, d.total_replays);
            proof {
                let s = self.replay_drops@;
                assert(s.take(i + 1).drop_last() =~= s.take(i as int));
                assert(data@ =~= h1 + drops_bytes(s.take(i + 1)));
            }
            i = i + 1;
        }
        assert(self.replay_drops@.take(i as int) =~= self.replay_drops@);
        push_u64_le(&mut data, self.degraded_episodes.len() as u64);
        let ghost h2 = data@;
        let mut i: usize = 0;
        while i < self.degraded_episodes.len()
            invariant
                i <= self.degraded_episodes@.len(),
                data@ == h2 + episodes_bytes(self.degraded_episodes@.take(i as int)),
            decreases self.degraded_episodes@.len() - i,
        {
            let e = self.degraded_episodes[i];
            push_str(&mut data, e.0.kind.as_str());
            push_u64_le(&mut data, e.1);
            proof {
                let s = self.degraded_episodes@;
                assert(s.take(i + 1).drop_last() =~= s.take(i as int));
                assert(data@ =~= h2 + episodes_bytes(s.take(i + 1)));
            }
            i = i + 1;
        }
        assert(self.degraded_episodes@.take(i as int) =~= self.degraded_episodes@);
        push_u64_le(&mut data, self.claim_deltas.len() as u64);
        let ghost h3 = data@;
        let mut i: usize = 0;
        while i < self.claim_deltas.len()
            invariant
                i <= self.claim_deltas@.len(),
                data@ == h3 + deltas_bytes(self.claim_deltas@.take(i as int)),
            decreases self.claim_deltas@.len() - i,
        {
            let d = &self.claim_deltas[i];
            push_str(&mut data, d.claim_id.as_str());
            push_u64_le(&mut data, d.baseline_millionths);
            push_u64_le(&mut data, d.observed_millionths);
            proof {
                let s = self.claim_deltas@;
                assert(s.take(i + 1).drop_last() =~= s.take(i as int));
                assert(data@ =~= h3 + deltas_bytes(s.take(i + 1)));
            }
            i = i + 1;
        }
        assert(self.claim_deltas@.take(i as int) =~= self.claim_deltas@);
        push_str(&mut data, verdict.as_str());
        assert(data@ =~= self.hash_input(epoch, verdict));
        data
    }

    /// Evaluate all accumulated evidence and produce a receipt.
    pub fn evaluate(&self, epoch: SecurityEpoch) -> (r: GovernanceReceipt)
        ensures
            r.schema_version@ == SCHEMA_VERSION@,
            r.verdict == self.verdict_spec(),
            r.epoch == epoch,
            r.conformance_count == self.conformance_results@.len(),
            r.drop_entry_count == self.replay_drops@.len(),
            r.degraded_policy_count == self.degraded_episodes@.len(),
            r.claim_delta_count == self.claim_deltas@.len(),
            violation_view(r.violations@) == self.violations_spec(),
            r.content_hash@ == sha256_digest(sha256_digest(self.hash_input(epoch, r.verdict))),
    {
        let mut violations: Vec<ViolationEntry> = Vec::new();
        let covered = covered_axes(&self.conformance_results);
        let coverage_bad = covered < self.config.required_axes;
        if coverage_bad {
            let mut d = owned("only ");
            d.append(u64_to_decimal(covered as u64).as_str());
            d.append(" axes covered, ");
            d.append(u64_to_decimal(self.config.required_axes as u64).as_str());
            d.append(" required");
            push_violation(&mut violations, GovernanceVerdict::InsufficientCoverage, d);
        }
        assert(violation_view(violations@) =~= coverage_violations(self.conformance_results@, self.config));
        let n0 = violations.len();
        push_conformance_violations(&mut violations, &self.conformance_results, &self.config);
        let n1 = violations.len();
        push_drop_violations(&mut violations, &self.replay_drops, &self.config);
        let n2 = violations.len();
        push_degraded_violations(&mut violations, &self.degraded_episodes, self.config.max_degraded_duration);
        let n3 = violations.len();
        push_claim_violations(&mut violations, &self.claim_deltas);
        let n4 = violations.len();
        proof {
            let c = coverage_violations(self.conformance_results@, self.config);
            let f = conformance_violations(self.conformance_results@, self.config);
            let d = drop_violations(self.replay_drops@, self.config);
            let g = degraded_violations(self.degraded_episodes@, self.config.max_degraded_duration);
            let o = claim_violations(self.claim_deltas@);
            assert(violation_view(violations@) =~= c + f + d + g + o);
            assert(n0 == c.len());
            assert(n1 == c.len() + f.len());
            assert(n2 == c.len() + f.len() + d.len());
            assert(n3 == c.len() + f.len() + d.len() + g.len());
            assert(n4 == c.len() + f.len() + d.len() + g.len() + o.len());
        }
        let conformance_bad = n1 > n0;
        let drops_bad = n2 > n1;
        let degraded_bad = n3 > n2;
        let drift_bad = n4 > n3;
        let mut categories: u64 = 0;
        if coverage_bad {
            categories = categories + 1;
        }
        if conformance_bad {
            categories = categories + 1;
        }
        if drops_bad {
            categories = categories + 1;
        }
        if degraded_bad {
            categories = categories + 1;
        }
        if drift_bad {
            categories = categories + 1;
        }
        let verdict = if categories == 0 {
            GovernanceVerdict::Approved
        } else if categories > 1 {
            GovernanceVerdict::MultipleViolations
        } else if coverage_bad {
            GovernanceVerdict::InsufficientCoverage
        } else if conformance_bad {
            GovernanceVerdict::ConformanceViolation
        } else if drops_bad {
            GovernanceVerdict::DropRateExceeded
        } else if degraded_bad {
            GovernanceVerdict::DegradedModePolicyViolation
        } else {
            GovernanceVerdict::ObservabilityDrift
        };
        let data = self.hash_bytes(epoch, verdict);
        let digest = ContentHash::compute(data.as_slice());
        GovernanceReceipt {
            schema_version: owned(SCHEMA_VERSION),
            verdict,
            epoch,
            conformance_count: self.conformance_results.len(),
            drop_entry_count: self.replay_drops.len(),
            degraded_policy_count: self.degraded_episodes.len(),
            claim_delta_count: self.claim_deltas.len(),
            violations,
            content_hash: ContentHash::compute(digest.as_bytes()),
        }
    }

    /// Evaluate and return just the verdict.
    pub fn verdict(&self, epoch: SecurityEpoch) -> (r: GovernanceVerdict)
        ensures
            r == self.verdict_spec(),
    {
        self.evaluate(epoch).verdict
    }
}

// ---------------------------------------------------------------------------
// Laws
// ---------------------------------------------------------------------------

/// The evaluator approves exactly when no violation is found, and a
/// violation is reported for every category the verdict names.
pub proof fn law_approved_iff_no_violation(e: GovernanceEvaluator)
    ensures
        (e.verdict_spec() == GovernanceVerdict::Approved) == (e.violations_spec().len() == 0),
{
}

/// The verdict names a single category only when every violation belongs to
/// it; otherwise several categories are violated.
pub proof fn law_single_category_verdict(e: GovernanceEvaluator)
    ensures
        e.verdict_spec() != GovernanceVerdict::Approved && e.verdict_spec()
            != GovernanceVerdict::MultipleViolations ==> forall|i: int|
            0 <= i < e.violations_spec().len() ==> (#[trigger] e.violations_spec()[i]).0
                == e.verdict_spec(),
{
    let c = coverage_violations(e.conformance_results@, e.config);
    let f = conformance_violations(e.conformance_results@, e.config);
    let d = drop_violations(e.replay_drops@, e.config);
    let g = degraded_violations(e.degraded_episodes@, e.config.max_degraded_duration);
    let o = claim_violations(e.claim_deltas@);
    lemma_conformance_categories(e.conformance_results@, e.config);
    lemma_drop_categories(e.replay_drops@, e.config);
    lemma_degraded_categories(e.degraded_episodes@, e.config.max_degraded_duration);
    lemma_claim_categories(e.claim_deltas@);
    let all = e.violations_spec();
    assert(all =~= c + f + d + g + o);
    assert forall|i: int| 0 <= i < all.len() && e.verdict_spec() != GovernanceVerdict::Approved
        && e.verdict_spec() != GovernanceVerdict::MultipleViolations implies (#[trigger] all[i]).0
        == e.verdict_spec() by {
        if i < c.len() {
            assert(all[i] == c[i]);
        } else if i < c.len() + f.len() {
            assert(all[i] == f[i - c.len()]);
        } else if i < c.len() + f.len() + d.len() {
            assert(all[i] == d[i - c.len() - f.len()]);
        } else if i < c.len() + f.len() + d.len() + g.len() {
            assert(all[i] == g[i - c.len() - f.len() - d.len()]);
        } else {
            assert(all[i] == o[i - c.len() - f.len() - d.len() - g.len()]);
        }
    }
}

proof fn lemma_conformance_categories(s: Seq<ConformanceResult>, config: GovernanceConfig)
    ensures
        forall|i: int|
            0 <= i < conformance_violations(s, config).len() ==> (#[trigger] conformance_violations(
                s,
                config,
            )[i]).0 == GovernanceVerdict::ConformanceViolation,
    decreases s.len(),
{
    if s.len() > 0 {
        lemma_conformance_categories(s.drop_last(), config);
    }
}

proof fn lemma_drop_categories(s: Seq<ReplayDropEntry>, config: GovernanceConfig)
    ensures
        forall|i: int|
            0 <= i < drop_violations(s, config).len() ==> (#[trigger] drop_violations(s, config)[i]).0
                == GovernanceVerdict::DropRateExceeded,
    decreases s.len(),
{
    if s.len() > 0 {
        lemma_drop_categories(s.drop_last(), config);
    }
}

proof fn lemma_degraded_categories(s: Seq<(DegradedModePolicy, u64, bool)>, limit: u64)
    ensures
        forall|i: int|
            0 <= i < degraded_violations(s, limit).len() ==> (#[trigger] degraded_violations(s, limit)[i]).0
                == GovernanceVerdict::DegradedModePolicyViolation,
    decreases s.len(),
{
    if s.len() > 0 {
        lemma_degraded_categories(s.drop_last(), limit);
    }
}

proof fn lemma_claim_categories(s: Seq<ObservabilityClaimDelta>)
    ensures
        forall|i: int|
            0 <= i < claim_violations(s).len() ==> (#[trigger] claim_violations(s)[i]).0
                == GovernanceVerdict::ObservabilityDrift,
    decreases s.len(),
{
    if s.len() > 0 {
        lemma_claim_categories(s.drop_last());
    }
}

/// The verdict is MultipleViolations exactly when the violations span two
/// or more categories.
pub proof fn law_multiple_categories_verdict(e: GovernanceEvaluator)
    ensures
        (e.verdict_spec() == GovernanceVerdict::MultipleViolations) <==> exists|i: int, j: int|
            0 <= i < e.violations_spec().len() && 0 <= j < e.violations_spec().len() && (
            #[trigger] e.violations_spec()[i]).0 != (#[trigger] e.violations_spec()[j]).0,
{
    let lim = e.config.max_degraded_duration;
    let c = coverage_violations(e.conformance_results@, e.config);
    let f = conformance_violations(e.conformance_results@, e.config);
    let d = drop_violations(e.replay_drops@, e.config);
    let g = degraded_violations(e.degraded_episodes@, lim);
    let o = claim_violations(e.claim_deltas@);
    lemma_conformance_categories(e.conformance_results@, e.config);
    lemma_drop_categories(e.replay_drops@, e.config);
    lemma_degraded_categories(e.degraded_episodes@, lim);
    lemma_claim_categories(e.claim_deltas@);
    law_single_category_verdict(e);
    let all = e.violations_spec();
    assert(all =~= c + f + d + g + o);
    if e.verdict_spec() == GovernanceVerdict::MultipleViolations {
        let last: int = all.len() - 1;
        let first_cat = if c.len() > 0 {
            GovernanceVerdict::InsufficientCoverage
        } else if f.len() > 0 {
            GovernanceVerdict::ConformanceViolation
        } else if d.len() > 0 {
            GovernanceVerdict::DropRateExceeded
        } else {
            GovernanceVerdict::DegradedModePolicyViolation
        };
        let last_cat = if o.len() > 0 {
            GovernanceVerdict::ObservabilityDrift
        } else if g.len() > 0 {
            GovernanceVerdict::DegradedModePolicyViolation
        } else if d.len() > 0 {
            GovernanceVerdict::DropRateExceeded
        } else {
            GovernanceVerdict::ConformanceViolation
        };
        if c.len() > 0 {
            assert(all[0] == c[0]);
        } else if f.len() > 0 {
            assert(all[0] == f[0]);
        } else if d.len() > 0 {
            assert(all[0] == d[0]);
        } else {
            assert(all[0] == g[0]);
        }
        if o.len() > 0 {
            assert(all[last] == o[o.len() - 1]);
        } else if g.len() > 0 {
            assert(all[last] == g[g.len() - 1]);
        } else if d.len() > 0 {
            assert(all[last] == d[d.len() - 1]);
        } else {
            assert(all[last] == f[f.len() - 1]);
        }
        assert(all[0].0 == first_cat);
        assert(all[last].0 == last_cat);
        assert(all[0].0 != all[last].0);
    }
}

/// A violating episode always leaves a degraded-mode violation.
proof fn lemma_violated_episode_listed(s: Seq<(DegradedModePolicy, u64, bool)>, limit: u64, k: int)
    requires
        0 <= k < s.len(),
        episode_violated(s[k], limit),
    ensures
        degraded_violations(s, limit).len() > 0,
    decreases s.len(),
{
    if k < s.len() - 1 {
        lemma_violated_episode_listed(s.drop_last(), limit, k);
    }
}

/// A degraded-mode episode longer than the configured maximum duration is
/// never approved: it is reported as a degraded-mode policy violation,
/// whatever its own policy allows.
pub proof fn law_overlong_episode_violates(e: GovernanceEvaluator, k: int)
    requires
        0 <= k < e.degraded_episodes@.len(),
        e.degraded_episodes@[k].1 > e.config.max_degraded_duration,
    ensures
        e.verdict_spec() == GovernanceVerdict::DegradedModePolicyViolation || e.verdict_spec()
            == GovernanceVerdict::MultipleViolations,
        exists|i: int|
            0 <= i < e.violations_spec().len() && (#[trigger] e.violations_spec()[i]).0
                == GovernanceVerdict::DegradedModePolicyViolation,
{
    let lim = e.config.max_degraded_duration;
    lemma_violated_episode_listed(e.degraded_episodes@, lim, k);
    lemma_degraded_categories(e.degraded_episodes@, lim);
    let c = coverage_violations(e.conformance_results@, e.config);
    let f = conformance_violations(e.conformance_results@, e.config);
    let d = drop_violations(e.replay_drops@, e.config);
    let g = degraded_violations(e.degraded_episodes@, lim);
    let o = claim_violations(e.claim_deltas@);
    let all = e.violations_spec();
    assert(all =~= c + f + d + g + o);
    let i: int = (c.len() + f.len() + d.len()) as int;
    assert(all[i] == g[0]);
}

/// The default policies demand an operator acknowledgement exactly for the
/// kinds that take functionality away (partial functionality, read-only
/// and disconnected), never for mere bandwidth or latency degradation.
pub proof fn law_default_ack_kinds(kind: DegradedModeKind)
    ensures
        DegradedModePolicy::for_kind_spec(kind).kind == kind,
        DegradedModePolicy::for_kind_spec(kind).requires_operator_ack <==> (kind
            == DegradedModeKind::PartialFunctionality || kind == DegradedModeKind::ReadOnly || kind
            == DegradedModeKind::Disconnected),
{
}

/// An episode under the default policy of a kind that takes functionality
/// away (partial functionality, read-only or disconnected), left
/// unacknowledged by the operator, is never approved: it is reported as a
/// degraded-mode policy violation, whatever its duration.
pub proof fn law_unacknowledged_episode_violates(e: GovernanceEvaluator, k: int)
    requires
        0 <= k < e.degraded_episodes@.len(),
        e.degraded_episodes@[k].0 == DegradedModePolicy::for_kind_spec(e.degraded_episodes@[k].0.kind),
        e.degraded_episodes@[k].0.kind == DegradedModeKind::PartialFunctionality || e.degraded_episodes@[k].0.kind
            == DegradedModeKind::ReadOnly || e.degraded_episodes@[k].0.kind == DegradedModeKind::Disconnected,
        !e.degraded_episodes@[k].2,
    ensures
        e.verdict_spec() == GovernanceVerdict::DegradedModePolicyViolation || e.verdict_spec()
            == GovernanceVerdict::MultipleViolations,
        exists|i: int|
            0 <= i < e.violations_spec().len() && (#[trigger] e.violations_spec()[i]).0
                == GovernanceVerdict::DegradedModePolicyViolation,
{
    let lim = e.config.max_degraded_duration;
    law_default_ack_kinds(e.degraded_episodes@[k].0.kind);
    lemma_violated_episode_listed(e.degraded_episodes@, lim, k);
    lemma_degraded_categories(e.degraded_episodes@, lim);
    let c = coverage_violations(e.conformance_results@, e.config);
    let f = conformance_violations(e.conformance_results@, e.config);
    let d = drop_violations(e.replay_drops@, e.config);
    let g = degraded_violations(e.degraded_episodes@, lim);
    let o = claim_violations(e.claim_deltas@);
    let all = e.violations_spec();
    assert(all =~= c + f + d + g + o);
    let i: int = (c.len() + f.len() + d.len()) as int;
    assert(all[i] == g[0]);
}

/// A disconnected session can never be recovered automatically, and any
/// duration is too long for it.
pub proof fn law_disconnected_is_terminal(duration_ns: u64)
    ensures
        !(DegradedModePolicy::for_kind_spec(DegradedModeKind::Disconnected).auto_recovery),
        duration_ns > 0 ==> duration_ns > DegradedModePolicy::for_kind_spec(
            DegradedModeKind::Disconnected,
        ).max_duration_ns,
{
}

} // verus!
