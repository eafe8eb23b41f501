//! Hardware board claim gate.
//!
//! Gates hardware-board claims, promotion, and unsupported-hardware surfacing
//! on localization residuals.  Cross-microarchitecture wins are only claimed
//! where transport evidence supports them; otherwise the claim is downgraded,
//! a fresh local measurement is required, or the hardware region is marked
//! unsupported.  All arithmetic uses fixed-point millionths (1_000_000 = 1.0).

use crate::foundation::{
    decimal, owned, push_bytes, push_str, push_u64_le, ratio, ratio_millionths, sha256_digest,
    u64_le, u64_to_decimal, utf8, ContentHash, SecurityEpoch,
};
use vstd::prelude::*;

verus! {

/// Schema version for hardware board claim gate artifacts.
pub const SCHEMA_VERSION: &'static str = "franken-engine.hardware-board-claim-gate.v1";

/// Bead identifier for this module.
pub const BEAD_ID: &'static str = "bd-1lsy.7.16.3";

/// Component name.
pub const COMPONENT: &'static str = "hardware_board_claim_gate";

/// Policy identifier.
pub const POLICY_ID: &'static str = "RGC-616C";

/// One million — unit for fixed-point millionths arithmetic.
pub const MILLIONTHS: u64 = 1_000_000;

/// Default threshold above which a claim is `Confirmed` (95%).
pub const DEFAULT_FULL_TRANSPORT_THRESHOLD: u64 = 950_000;

/// Default threshold above which a claim is `Downgraded` (70%).
pub const DEFAULT_PARTIAL_TRANSPORT_THRESHOLD: u64 = 700_000;

/// Default threshold above which a claim is `RequiresLocal` (30%).
pub const DEFAULT_DEGRADED_THRESHOLD: u64 = 300_000;

/// Default minimum sample count for sufficient evidence.
pub const DEFAULT_MIN_SAMPLES: u64 = 10;

/// Default rollback regression threshold (5%).
pub const DEFAULT_ROLLBACK_REGRESSION_THRESHOLD: u64 = 50_000;

/// Maximum degradation reasons per evidence record.
pub const MAX_DEGRADATION_REASONS: usize = 16;

// ---------------------------------------------------------------------------
// HardwareClaimKind
// ---------------------------------------------------------------------------

/// Classification of the hardware performance claim being made.
#[derive(Debug, Clone, Copy, PartialEq, Eq, PartialOrd, Ord, Hash, Structural)]
pub enum HardwareClaimKind {
    Throughput,
    Latency,
    MemoryEfficiency,
    StartupTime,
    TailLatency,
    EnergyEfficiency,
}

impl HardwareClaimKind {
    /// All claim kinds for exhaustive iteration.
    pub const ALL: [HardwareClaimKind; 6] = [
        HardwareClaimKind::Throughput,
        HardwareClaimKind::Latency,
        HardwareClaimKind::MemoryEfficiency,
        HardwareClaimKind::StartupTime,
        HardwareClaimKind::TailLatency,
        HardwareClaimKind::EnergyEfficiency,
    ];

    /// Stable name of the kind.
    pub open spec fn name(self) -> Seq<char> {
        match self {
            HardwareClaimKind::Throughput => "throughput"@,
            HardwareClaimKind::Latency => "latency"@,
            HardwareClaimKind::MemoryEfficiency => "memory_efficiency"@,
            HardwareClaimKind::StartupTime => "startup_time"@,
            HardwareClaimKind::TailLatency => "tail_latency"@,
            HardwareClaimKind::EnergyEfficiency => "energy_efficiency"@,
        }
    }

    /// String identifier for this claim kind.
    pub fn as_str(self) -> (r: &'static str)
        ensures
            r@ == self.name(),
    {
        match self {
            HardwareClaimKind::Throughput => "throughput",
            HardwareClaimKind::Latency => "latency",
            HardwareClaimKind::MemoryEfficiency => "memory_efficiency",
            HardwareClaimKind::StartupTime => "startup_time",
            HardwareClaimKind::TailLatency => "tail_latency",
            HardwareClaimKind::EnergyEfficiency => "energy_efficiency",
        }
    }

    /// Display rendering (the stable name).
    pub fn to_string(&self) -> (r: String)
        ensures
            r@ == self.name(),
    {
        owned(self.as_str())
    }
}

// ---------------------------------------------------------------------------
// ClaimVerdict
// ---------------------------------------------------------------------------

/// Verdict after evaluating a hardware claim against transport evidence.
#[derive(Debug, Clone, Copy, PartialEq, Eq, PartialOrd, Ord, Hash, Structural)]
pub enum ClaimVerdict {
    Confirmed,
    Downgraded,
    RequiresLocal,
    Unsupported,
    InsufficientEvidence,
}

impl ClaimVerdict {
    /// All verdict variants for exhaustive iteration.
    pub const ALL: [ClaimVerdict; 5] = [
        ClaimVerdict::Confirmed,
        ClaimVerdict::Downgraded,
        ClaimVerdict::RequiresLocal,
        ClaimVerdict::Unsupported,
        ClaimVerdict::InsufficientEvidence,
    ];

    /// Stable name of the verdict.
    pub open spec fn name(self) -> Seq<char> {
        match self {
            ClaimVerdict::Confirmed => "confirmed"@,
            ClaimVerdict::Downgraded => "downgraded"@,
            ClaimVerdict::RequiresLocal => "requires_local"@,
            ClaimVerdict::Unsupported => "unsupported"@,
            ClaimVerdict::InsufficientEvidence => "insufficient_evidence"@,
        }
    }

    /// String identifier for this verdict.
    pub fn as_str(self) -> (r: &'static str)
        ensures
            r@ == self.name(),
    {
        match self {
            ClaimVerdict::Confirmed => "confirmed",
            ClaimVerdict::Downgraded => "downgraded",
            ClaimVerdict::RequiresLocal => "requires_local",
            ClaimVerdict::Unsupported => "unsupported",
            ClaimVerdict::InsufficientEvidence => "insufficient_evidence",
        }
    }

    /// Whether this verdict permits the claim to be used.
    pub open spec fn usable(self) -> bool {
        self == ClaimVerdict::Confirmed || self == ClaimVerdict::Downgraded
    }

    /// Whether this verdict permits the claim to be used.
    pub fn is_usable(self) -> (r: bool)
        ensures
            r == self.usable(),
    {
        match self {
            ClaimVerdict::Confirmed | ClaimVerdict::Downgraded => true,
            _ => false,
        }
    }

    /// Display rendering (the stable name).
    pub fn to_string(&self) -> (r: String)
        ensures
            r@ == self.name(),
    {
        owned(self.as_str())
    }
}

// ---------------------------------------------------------------------------
// PromotionDecision
// ---------------------------------------------------------------------------

/// Decision on whether to promote an artifact based on claim evidence.
#[derive(Debug, Clone, Copy, PartialEq, Eq, PartialOrd, Ord, Hash, Structural)]
pub enum PromotionDecision {
    Promote,
    Hold,
    Rollback,
    RequireFreshMeasurement,
}

impl PromotionDecision {
    /// All decision variants for exhaustive iteration.
    pub const ALL: [PromotionDecision; 4] = [
        PromotionDecision::Promote,
        PromotionDecision::Hold,
        PromotionDecision::Rollback,
        PromotionDecision::RequireFreshMeasurement,
    ];

    /// Stable name of the decision.
    pub open spec fn name(self) -> Seq<char> {
        match self {
            PromotionDecision::Promote => "promote"@,
            PromotionDecision::Hold => "hold"@,
            PromotionDecision::Rollback => "rollback"@,
            PromotionDecision::RequireFreshMeasurement => "require_fresh_measurement"@,
        }
    }

    /// String identifier for this decision.
    pub fn as_str(self) -> (r: &'static str)
        ensures
            r@ == self.name(),
    {
        match self {
            PromotionDecision::Promote => "promote",
            PromotionDecision::Hold => "hold",
            PromotionDecision::Rollback => "rollback",
            PromotionDecision::RequireFreshMeasurement => "require_fresh_measurement",
        }
    }

    /// Display rendering (the stable name).
    pub fn to_string(&self) -> (r: String)
        ensures
            r@ == self.name(),
    {
        owned(self.as_str())
    }
}

// ---------------------------------------------------------------------------
// DegradationReason
// ---------------------------------------------------------------------------

/// Reason why a hardware claim is degraded during transport.
#[derive(Debug, Clone, Copy, PartialEq, Eq, PartialOrd, Ord, Hash, Structural)]
pub enum DegradationReason {
    ArchMismatch,
    VectorWidthLoss,
    CacheSizeDifference,
    MicroarchVariance,
    InsufficientSamples,
    ResidualTooLow,
}

impl DegradationReason {
    /// All reason variants for exhaustive iteration.
    pub const ALL: [DegradationReason; 6] = [
        DegradationReason::ArchMismatch,
        DegradationReason::VectorWidthLoss,
        DegradationReason::CacheSizeDifference,
        DegradationReason::MicroarchVariance,
        DegradationReason::InsufficientSamples,
        DegradationReason::ResidualTooLow,
    ];

    /// Stable name of the reason.
    pub open spec fn name(self) -> Seq<char> {
        match self {
            DegradationReason::ArchMismatch => "arch_mismatch"@,
            DegradationReason::VectorWidthLoss => "vector_width_loss"@,
            DegradationReason::CacheSizeDifference => "cache_size_difference"@,
            DegradationReason::MicroarchVariance => "microarch_variance"@,
            DegradationReason::InsufficientSamples => "insufficient_samples"@,
            DegradationReason::ResidualTooLow => "residual_too_low"@,
        }
    }

    /// String identifier for this reason.
    pub fn as_str(self) -> (r: &'static str)
        ensures
            r@ == self.name(),
    {
        match self {
            DegradationReason::ArchMismatch => "arch_mismatch",
            DegradationReason::VectorWidthLoss => "vector_width_loss",
            DegradationReason::CacheSizeDifference => "cache_size_difference",
            DegradationReason::MicroarchVariance => "microarch_variance",
            DegradationReason::InsufficientSamples => "insufficient_samples",
            DegradationReason::ResidualTooLow => "residual_too_low",
        }
    }

    /// Display rendering (the stable name).
    pub fn to_string(&self) -> (r: String)
        ensures
            r@ == self.name(),
    {
        owned(self.as_str())
    }
}

/// Concatenated UTF-8 names of a reason list.
pub open spec fn reason_name_bytes(rs: Seq<DegradationReason>) -> Seq<u8>
    decreases rs.len(),
{
    if rs.len() == 0 {
        Seq::empty()
    } else {
        reason_name_bytes(rs.drop_last()) + utf8(rs.last().name())
    }
}

/// Reason names joined by `", "`.
pub open spec fn join_reason_names(rs: Seq<DegradationReason>) -> Seq<char>
    decreases rs.len(),
{
    if rs.len() == 0 {
        Seq::empty()
    } else if rs.len() == 1 {
        rs[0].name()
    } else {
        join_reason_names(rs.drop_last()) + ", "@ + rs.last().name()
    }
}

// ---------------------------------------------------------------------------
// HardwareClaim
// ---------------------------------------------------------------------------

/// A hardware performance claim asserting that an optimization or benchmark
/// result transports from a source cell to a target cell.
#[derive(Debug, PartialEq, Eq)]
pub struct HardwareClaim {
    pub kind: HardwareClaimKind,
    pub source_cell_id: String,
    pub target_cell_id: String,
    /// Measured value on source cell (millionths).
    pub measured_value: u64,
    /// Claimed improvement factor (millionths).
    pub claimed_improvement: u64,
    /// Transport residual fraction (millionths, 0–1_000_000).
    pub transport_residual: u64,
    pub sample_count: u64,
    pub epoch: SecurityEpoch,
}

impl Clone for HardwareClaim {
    fn clone(&self) -> (r: Self)
        ensures
            r == *self,
    {
        HardwareClaim {
            kind: self.kind,
            source_cell_id: self.source_cell_id.clone(),
            target_cell_id: self.target_cell_id.clone(),
            measured_value: self.measured_value,
            claimed_improvement: self.claimed_improvement,
            transport_residual: self.transport_residual,
            sample_count: self.sample_count,
            epoch: self.epoch,
        }
    }
}

/// Rendering `kind:src->tgt` that identifies a claim.
pub open spec fn claim_label(c: HardwareClaim) -> Seq<char> {
    c.kind.name() + ":"@ + c.source_cell_id@ + "->"@ + c.target_cell_id@
}

fn claim_label_exec(c: &HardwareClaim) -> (r: String)
    ensures
        r@ == claim_label(*c),
{
    let mut s = owned(c.kind.as_str());
    s.append(":");
    s.append(c.source_cell_id.as_str());
    s.append("->");
    s.append(c.target_cell_id.as_str());
    s
}

impl HardwareClaim {
    /// Bytes hashed to identify the claim.
    pub open spec fn hash_input(self) -> Seq<u8> {
        utf8(COMPONENT@) + utf8(self.kind.name()) + utf8(self.source_cell_id@) + utf8(
            self.target_cell_id@,
        ) + u64_le(self.measured_value) + u64_le(self.claimed_improvement) + u64_le(
            self.transport_residual,
        ) + u64_le(self.sample_count) + u64_le(self.epoch.0)
    }

    /// Content hash of the claim.
    pub open spec fn hash(self) -> Seq<u8> {
        sha256_digest(sha256_digest(self.hash_input()))
    }

    /// Create a new hardware claim.
    pub fn new(
        kind: HardwareClaimKind,
        source_cell_id: &str,
        target_cell_id: &str,
        measured_value: u64,
        claimed_improvement: u64,
        transport_residual: u64,
        sample_count: u64,
        epoch: SecurityEpoch,
    ) -> (r: Self)
        ensures
            r.kind == kind,
            r.source_cell_id@ == source_cell_id@,
            r.target_cell_id@ == target_cell_id@,
            r.measured_value == measured_value,
            r.claimed_improvement == claimed_improvement,
            r.transport_residual == transport_residual,
            r.sample_count == sample_count,
            r.epoch == epoch,
    {
        HardwareClaim {
            kind,
            source_cell_id: owned(source_cell_id),
            target_cell_id: owned(target_cell_id),
            measured_value,
            claimed_improvement,
            transport_residual,
            sample_count,
            epoch,
        }
    }

    /// Compute a content hash for this claim.
    pub fn content_hash(&self) -> (r: ContentHash)
        ensures
            r@ == self.hash(),
    {
        let mut buf: Vec<u8> = Vec::new();
        push_str(&mut buf, COMPONENT);
        push_str(&mut buf, self.kind.as_str());
        push_str(&mut buf, self.source_cell_id.as_str());
        push_str(&mut buf, self.target_cell_id.as_str());
        push_u64_le(&mut buf, self.measured_value);
        push_u64_le(&mut buf, self.claimed_improvement);
        push_u64_le(&mut buf, self.transport_residual);
        push_u64_le(&mut buf, self.sample_count);
        push_u64_le(&mut buf, self.epoch.as_u64());
        let d = ContentHash::compute(buf.as_slice());
        ContentHash::compute(d.as_bytes())
    }

    /// Whether source and target are the same cell.
    pub fn is_same_cell(&self) -> (r: bool)
        ensures
            r == (self.source_cell_id@ == self.target_cell_id@),
    {
        self.source_cell_id == self.target_cell_id
    }

    /// Display rendering `kind:src->tgt residual=<n>`.
    pub fn to_string(&self) -> (r: String)
        ensures
            r@ == claim_label(*self) + " residual="@ + decimal(self.transport_residual as nat),
    {
        let mut s = claim_label_exec(self);
        s.append(" residual=");
        s.append(u64_to_decimal(self.transport_residual).as_str());
        s
    }
}

// ---------------------------------------------------------------------------
// ClaimEvidence
// ---------------------------------------------------------------------------

/// Evidence record produced by evaluating a hardware claim.
#[derive(Debug, PartialEq, Eq)]
pub struct ClaimEvidence {
    pub claim: HardwareClaim,
    pub verdict: ClaimVerdict,
    /// Reasons for degradation (empty if Confirmed).
    pub degradation_reasons: Vec<DegradationReason>,
    /// Residual fraction (millionths).
    pub residual_fraction: u64,
    /// Content hash of the transport certificate backing this evidence.
    pub transport_certificate_hash: ContentHash,
    /// Human-readable explanation of the verdict.
    pub explanation: String,
}

impl ClaimEvidence {
    /// Bytes hashed to identify the evidence.
    pub open spec fn hash_input(self) -> Seq<u8> {
        utf8(COMPONENT@) + utf8("evidence"@) + self.claim.hash() + utf8(self.verdict.name())
            + u64_le(self.residual_fraction) + self.transport_certificate_hash@ + utf8(
            self.explanation@,
        ) + reason_name_bytes(self.degradation_reasons@)
    }

    /// Content hash of the evidence.
    pub open spec fn hash(self) -> Seq<u8> {
        sha256_digest(sha256_digest(self.hash_input()))
    }

    /// Content hash of this evidence record.
    pub fn content_hash(&self) -> (r: ContentHash)
        ensures
            r@ == self.hash(),
    {
        let mut buf: Vec<u8> = Vec::new();
        push_str(&mut buf, COMPONENT);
        push_str(&mut buf, "evidence");
        let ch = self.claim.content_hash();
        push_bytes(&mut buf, ch.as_bytes());
        push_str(&mut buf, self.verdict.as_str());
        push_u64_le(&mut buf, self.residual_fraction);
        push_bytes(&mut buf, self.transport_certificate_hash.as_bytes());
        push_str(&mut buf, self.explanation.as_str());
        let ghost prefix = buf@;
        let mut i: usize = 0;
        while i < self.degradation_reasons.len()
            invariant
                i <= self.degradation_reasons@.len(),
                buf@ == prefix + reason_name_bytes(self.degradation_reasons@.take(i as int)),
            decreases self.degradation_reasons@.len() - i,
        {
            push_str(&mut buf, self.degradation_reasons[i].as_str());
            i = i + 1;
            assert(self.degradation_reasons@.take(i as int).drop_last()
                =~= self.degradation_reasons@.take(i - 1));
        }
        assert(self.degradation_reasons@.take(i as int) =~= self.degradation_reasons@);
        assert(buf@ =~= self.hash_input());
        let d = ContentHash::compute(buf.as_slice());
        ContentHash::compute(d.as_bytes())
    }

    /// Whether the evidence supports the claim.
    pub fn is_supported(&self) -> (r: bool)
        ensures
            r == self.verdict.usable(),
    {
        self.verdict.is_usable()
    }

    /// Display rendering `[verdict] claim (residual=r, reasons=n)`.
    pub fn to_string(&self) -> (r: String)
        ensures
            r@ == "["@ + self.verdict.name() + "] "@ + claim_label(self.claim) + " residual="@
                + decimal(self.claim.transport_residual as nat) + " (residual="@ + decimal(
                self.residual_fraction as nat,
            ) + ", reasons="@ + decimal(self.degradation_reasons@.len()) + ")"@,
    {
        let mut s = owned("[");
        s.append(self.verdict.as_str());
        s.append("] ");
        s.append(self.claim.to_string().as_str());
        s.append(" (residual=");
        s.append(u64_to_decimal(self.residual_fraction).as_str());
        s.append(", reasons=");
        s.append(u64_to_decimal(self.degradation_reasons.len() as u64).as_str());
        s.append(")");
        s
    }
}

// ---------------------------------------------------------------------------
// PromotionRecord
// ---------------------------------------------------------------------------

/// Record of a promotion decision for a hardware claim.
#[derive(Debug, Clone, PartialEq, Eq)]
pub struct PromotionRecord {
    pub claim_id: String,
    pub decision: PromotionDecision,
    pub evidence_hash: ContentHash,
    pub epoch: SecurityEpoch,
    pub reason: String,
}

impl PromotionRecord {
    /// Bytes hashed to identify the record.
    pub open spec fn hash_input(self) -> Seq<u8> {
        utf8(COMPONENT@) + utf8("promotion"@) + utf8(self.claim_id@) + utf8(self.decision.name())
            + self.evidence_hash@ + u64_le(self.epoch.0) + utf8(self.reason@)
    }

    /// Content hash of this promotion record.
    pub fn content_hash(&self) -> (r: ContentHash)
        ensures
            r@ == sha256_digest(sha256_digest(self.hash_input())),
    {
        let mut buf: Vec<u8> = Vec::new();
        push_str(&mut buf, COMPONENT);
        push_str(&mut buf, "promotion");
        push_str(&mut buf, self.claim_id.as_str());
        push_str(&mut buf, self.decision.as_str());
        push_bytes(&mut buf, self.evidence_hash.as_bytes());
        push_u64_le(&mut buf, self.epoch.as_u64());
        push_str(&mut buf, self.reason.as_str());
        let d = ContentHash::compute(buf.as_slice());
        ContentHash::compute(d.as_bytes())
    }

    /// Display rendering `promotion[id]: decision — reason`.
    pub fn to_string(&self) -> (r: String)
        ensures
            r@ == "promotion["@ + self.claim_id@ + "]: "@ + self.decision.name() + " — "@
                + self.reason@,
    {
        let mut s = owned("promotion[");
        s.append(self.claim_id.as_str());
        s.append("]: ");
        s.append(self.decision.as_str());
        s.append(" — ");
        s.append(self.reason.as_str());
        s
    }
}

// ---------------------------------------------------------------------------
// RollbackRecord
// ---------------------------------------------------------------------------

/// Record of a rollback triggered by regression after promotion.
#[derive(Debug, Clone, PartialEq, Eq)]
pub struct RollbackRecord {
    pub claim_id: String,
    pub original_verdict: ClaimVerdict,
    pub rollback_verdict: ClaimVerdict,
    pub trigger: String,
    pub epoch: SecurityEpoch,
    pub receipt_hash: ContentHash,
}

/// Bytes hashed into a rollback receipt.
pub open spec fn rollback_hash_input(
    claim_id: Seq<char>,
    original: ClaimVerdict,
    rollback: ClaimVerdict,
    trigger: Seq<char>,
    epoch: SecurityEpoch,
) -> Seq<u8> {
    utf8(COMPONENT@) + utf8("rollback"@) + utf8(claim_id) + utf8(original.name()) + utf8(
        rollback.name(),
    ) + utf8(trigger) + u64_le(epoch.0)
}

impl RollbackRecord {
    /// Create a new rollback record with computed receipt hash.
    pub fn new(
        claim_id: &str,
        original_verdict: ClaimVerdict,
        rollback_verdict: ClaimVerdict,
        trigger: &str,
        epoch: SecurityEpoch,
    ) -> (r: Self)
        ensures
            r.claim_id@ == claim_id@,
            r.original_verdict == original_verdict,
            r.rollback_verdict == rollback_verdict,
            r.trigger@ == trigger@,
            r.epoch == epoch,
            r.receipt_hash@ == sha256_digest(
                sha256_digest(
                    rollback_hash_input(
                        claim_id@,
                        original_verdict,
                        rollback_verdict,
                        trigger@,
                        epoch,
                    ),
                ),
            ),
    {
        let mut buf: Vec<u8> = Vec::new();
        push_str(&mut buf, COMPONENT);
        push_str(&mut buf, "rollback");
        push_str(&mut buf, claim_id);
        push_str(&mut buf, original_verdict.as_str());
        push_str(&mut buf, rollback_verdict.as_str());
        push_str(&mut buf, trigger);
        push_u64_le(&mut buf, epoch.as_u64());
        let d = ContentHash::compute(buf.as_slice());
        let receipt_hash = ContentHash::compute(d.as_bytes());
        RollbackRecord {
            claim_id: owned(claim_id),
            original_verdict,
            rollback_verdict,
            trigger: owned(trigger),
            epoch,
            receipt_hash,
        }
    }

    /// Display rendering `rollback[id]: original -> rollback (trigger: t)`.
    pub fn to_string(&self) -> (r: String)
        ensures
            r@ == "rollback["@ + self.claim_id@ + "]: "@ + self.original_verdict.name() + " -> "@
                + self.rollback_verdict.name() + " (trigger: "@ + self.trigger@ + ")"@,
    {
        let mut s = owned("rollback[");
        s.append(self.claim_id.as_str());
        s.append("]: ");
        s.append(self.original_verdict.as_str());
        s.append(" -> ");
        s.append(self.rollback_verdict.as_str());
        s.append(" (trigger: ");
        s.append(self.trigger.as_str());
        s.append(")");
        s
    }
}

// ---------------------------------------------------------------------------
// GateConfig
// ---------------------------------------------------------------------------

/// Configuration for the hardware board claim gate.
#[derive(Debug, Clone, Copy, PartialEq, Eq, Structural)]
pub struct GateConfig {
    pub full_transport_threshold: u64,
    pub partial_transport_threshold: u64,
    pub degraded_threshold: u64,
    pub min_samples: u64,
    pub rollback_regression_threshold: u64,
}

impl GateConfig {
    /// Create configuration with default thresholds.
    pub fn default_config() -> (r: Self)
        ensures
            r.full_transport_threshold == DEFAULT_FULL_TRANSPORT_THRESHOLD,
            r.partial_transport_threshold == DEFAULT_PARTIAL_TRANSPORT_THRESHOLD,
            r.degraded_threshold == DEFAULT_DEGRADED_THRESHOLD,
            r.min_samples == DEFAULT_MIN_SAMPLES,
            r.rollback_regression_threshold == DEFAULT_ROLLBACK_REGRESSION_THRESHOLD,
    {
        GateConfig {
            full_transport_threshold: DEFAULT_FULL_TRANSPORT_THRESHOLD,
            partial_transport_threshold: DEFAULT_PARTIAL_TRANSPORT_THRESHOLD,
            degraded_threshold: DEFAULT_DEGRADED_THRESHOLD,
            min_samples: DEFAULT_MIN_SAMPLES,
            rollback_regression_threshold: DEFAULT_ROLLBACK_REGRESSION_THRESHOLD,
        }
    }

    /// Permissive configuration that confirms everything.
    pub fn permissive() -> (r: Self)
        ensures
            r.full_transport_threshold == 0,
            r.partial_transport_threshold == 0,
            r.degraded_threshold == 0,
            r.min_samples == 0,
            r.rollback_regression_threshold == MILLIONTHS,
    {
        GateConfig {
            full_transport_threshold: 0,
            partial_transport_threshold: 0,
            degraded_threshold: 0,
            min_samples: 0,
            rollback_regression_threshold: MILLIONTHS,
        }
    }

    /// Strict configuration with higher thresholds.
    pub fn strict() -> (r: Self)
        ensures
            r.full_transport_threshold == 980_000,
            r.partial_transport_threshold == 800_000,
            r.degraded_threshold == 500_000,
            r.min_samples == 50,
            r.rollback_regression_threshold == 20_000,
    {
        GateConfig {
            full_transport_threshold: 980_000,
            partial_transport_threshold: 800_000,
            degraded_threshold: 500_000,
            min_samples: 50,
            rollback_regression_threshold: 20_000,
        }
    }
}

impl Default for GateConfig {
    fn default() -> (r: Self)
        ensures
            r == GateConfig::default_config_spec(),
    {
        GateConfig::default_config()
    }
}

impl GateConfig {
    /// The default configuration.
    pub open spec fn default_config_spec() -> GateConfig {
        GateConfig {
            full_transport_threshold: DEFAULT_FULL_TRANSPORT_THRESHOLD,
            partial_transport_threshold: DEFAULT_PARTIAL_TRANSPORT_THRESHOLD,
            degraded_threshold: DEFAULT_DEGRADED_THRESHOLD,
            min_samples: DEFAULT_MIN_SAMPLES,
            rollback_regression_threshold: DEFAULT_ROLLBACK_REGRESSION_THRESHOLD,
        }
    }
}

// ---------------------------------------------------------------------------
// GateSummary
// ---------------------------------------------------------------------------

/// Number of occurrences of `v` in `s`.
pub open spec fn count_verdict(s: Seq<ClaimVerdict>, v: ClaimVerdict) -> nat
    decreases s.len(),
{
    if s.len() == 0 {
        0
    } else {
        count_verdict(s.drop_last(), v) + if s.last() == v {
            1nat
        } else {
            0nat
        }
    }
}

proof fn lemma_count_verdict_le(s: Seq<ClaimVerdict>, v: ClaimVerdict)
    ensures
        count_verdict(s, v) <= s.len(),
    decreases s.len(),
{
    if s.len() > 0 {
        lemma_count_verdict_le(s.drop_last(), v);
    }
}

proof fn lemma_count_two_le(s: Seq<ClaimVerdict>, a: ClaimVerdict, b: ClaimVerdict)
    requires
        a != b,
    ensures
        count_verdict(s, a) + count_verdict(s, b) <= s.len(),
    decreases s.len(),
{
    if s.len() > 0 {
        lemma_count_two_le(s.drop_last(), a, b);
    }
}

/// Aggregate summary of a batch evaluation.
#[derive(Debug, Clone, Copy, PartialEq, Eq, Structural)]
pub struct GateSummary {
    pub total_claims: usize,
    pub confirmed: usize,
    pub downgraded: usize,
    pub requires_local: usize,
    pub unsupported: usize,
    pub insufficient: usize,
    /// Pass rate: (confirmed + downgraded) / total (millionths).
    pub pass_rate: u64,
}

impl GateSummary {
    /// The summary that `from_verdicts` computes.
    pub open spec fn of_verdicts(vs: Seq<ClaimVerdict>) -> GateSummary {
        GateSummary {
            total_claims: vs.len() as usize,
            confirmed: count_verdict(vs, ClaimVerdict::Confirmed) as usize,
            downgraded: count_verdict(vs, ClaimVerdict::Downgraded) as usize,
            requires_local: count_verdict(vs, ClaimVerdict::RequiresLocal) as usize,
            unsupported: count_verdict(vs, ClaimVerdict::Unsupported) as usize,
            insufficient: count_verdict(vs, ClaimVerdict::InsufficientEvidence) as usize,
            pass_rate: ratio_millionths(
                (count_verdict(vs, ClaimVerdict::Confirmed) + count_verdict(
                    vs,
                    ClaimVerdict::Downgraded,
                )) as u64,
                vs.len() as u64,
            ),
        }
    }

    /// Compute a summary from a list of verdicts.
    pub fn from_verdicts(verdicts: &[ClaimVerdict]) -> (r: Self)
        ensures
            r == GateSummary::of_verdicts(verdicts@),
    {
        let mut confirmed: usize = 0;
        let mut downgraded: usize = 0;
        let mut requires_local: usize = 0;
        let mut unsupported: usize = 0;
        let mut insufficient: usize = 0;
        let mut i: usize = 0;
        while i < verdicts.len()
            invariant
                i <= verdicts@.len(),
                confirmed == count_verdict(verdicts@.take(i as int), ClaimVerdict::Confirmed),
                downgraded == count_verdict(verdicts@.take(i as int), ClaimVerdict::Downgraded),
                requires_local == count_verdict(
                    verdicts@.take(i as int),
                    ClaimVerdict::RequiresLocal,
                ),
                unsupported == count_verdict(verdicts@.take(i as int), ClaimVerdict::Unsupported),
                insufficient == count_verdict(
                    verdicts@.take(i as int),
                    ClaimVerdict::InsufficientEvidence,
                ),
            decreases verdicts@.len() - i,
        {
            let ghost t = verdicts@.take(i as int);
            proof {
                lemma_count_verdict_le(t, ClaimVerdict::Confirmed);
                lemma_count_verdict_le(t, ClaimVerdict::Downgraded);
                lemma_count_verdict_le(t, ClaimVerdict::RequiresLocal);
                lemma_count_verdict_le(t, ClaimVerdict::Unsupported);
                lemma_count_verdict_le(t, ClaimVerdict::InsufficientEvidence);
            }
            match verdicts[i] {
                ClaimVerdict::Confirmed => confirmed = confirmed + 1,
                ClaimVerdict::Downgraded => downgraded = downgraded + 1,
                ClaimVerdict::RequiresLocal => requires_local = requires_local + 1,
                ClaimVerdict::Unsupported => unsupported = unsupported + 1,
                ClaimVerdict::InsufficientEvidence => insufficient = insufficient + 1,
            }
            i = i + 1;
            assert(verdicts@.take(i as int).drop_last() =~= t);
        }
        assert(verdicts@.take(i as int) =~= verdicts@);
        proof {
            lemma_count_two_le(verdicts@, ClaimVerdict::Confirmed, ClaimVerdict::Downgraded);
        }
        let passed = (confirmed + downgraded) as u64;
        let pass_rate = ratio(passed, verdicts.len() as u64);
        GateSummary {
            total_claims: verdicts.len(),
            confirmed,
            downgraded,
            requires_local,
            unsupported,
            insufficient,
            pass_rate,
        }
    }

    /// Whether all claims passed.
    pub fn all_passed(&self) -> (r: bool)
        ensures
            r == (self.total_claims > 0 && self.requires_local == 0 && self.unsupported == 0
                && self.insufficient == 0),
    {
        self.total_claims > 0 && self.requires_local == 0 && self.unsupported == 0
            && self.insufficient == 0
    }

    /// Whether any claims are unsupported.
    pub fn has_unsupported(&self) -> (r: bool)
        ensures
            r == (self.unsupported > 0),
    {
        self.unsupported > 0
    }

    /// Bytes hashed to identify the summary.
    pub open spec fn hash_input(self) -> Seq<u8> {
        utf8(COMPONENT@) + utf8("summary"@) + u64_le(self.total_claims as u64) + u64_le(
            self.confirmed as u64,
        ) + u64_le(self.downgraded as u64) + u64_le(self.requires_local as u64) + u64_le(
            self.unsupported as u64,
        ) + u64_le(self.insufficient as u64) + u64_le(self.pass_rate)
    }

    /// Content hash of the summary.
    pub fn content_hash(&self) -> (r: ContentHash)
        ensures
            r@ == sha256_digest(sha256_digest(self.hash_input())),
    {
        let mut buf: Vec<u8> = Vec::new();
        push_str(&mut buf, COMPONENT);
        push_str(&mut buf, "summary");
        push_u64_le(&mut buf, self.total_claims as u64);
        push_u64_le(&mut buf, self.confirmed as u64);
        push_u64_le(&mut buf, self.downgraded as u64);
        push_u64_le(&mut buf, self.requires_local as u64);
        push_u64_le(&mut buf, self.unsupported as u64);
        push_u64_le(&mut buf, self.insufficient as u64);
        push_u64_le(&mut buf, self.pass_rate);
        let d = ContentHash::compute(buf.as_slice());
        ContentHash::compute(d.as_bytes())
    }

    /// Display rendering of all counters.
    pub fn to_string(&self) -> (r: String)
        ensures
            r@ == "claims="@ + decimal(self.total_claims as nat) + " confirmed="@ + decimal(
                self.confirmed as nat,
            ) + " downgraded="@ + decimal(self.downgraded as nat) + " local="@ + decimal(
                self.requires_local as nat,
            ) + " unsupported="@ + decimal(self.unsupported as nat) + " insufficient="@
                + decimal(self.insufficient as nat) + " pass_rate="@ + decimal(
                self.pass_rate as nat,
            ),
    {
        let mut s = owned("claims=");
        s.append(u64_to_decimal(self.total_claims as u64).as_str());
        s.append(" confirmed=");
        s.append(u64_to_decimal(self.confirmed as u64).as_str());
        s.append(" downgraded=");
        s.append(u64_to_decimal(self.downgraded as u64).as_str());
        s.append(" local=");
        s.append(u64_to_decimal(self.requires_local as u64).as_str());
        s.append(" unsupported=");
        s.append(u64_to_decimal(self.unsupported as u64).as_str());
        s.append(" insufficient=");
        s.append(u64_to_decimal(self.insufficient as u64).as_str());
        s.append(" pass_rate=");
        s.append(u64_to_decimal(self.pass_rate).as_str());
        s
    }
}

// ---------------------------------------------------------------------------
// DecisionReceipt
// ---------------------------------------------------------------------------

/// Content-hashed receipt of a gate evaluation decision.
#[derive(Debug, Clone, PartialEq, Eq)]
pub struct DecisionReceipt {
    pub receipt_hash: ContentHash,
    pub component: String,
    pub epoch: SecurityEpoch,
    pub verdict: ClaimVerdict,
    pub claim_hash: ContentHash,
}

impl DecisionReceipt {
    /// Create a new decision receipt with computed hash.
    pub fn new(epoch: SecurityEpoch, verdict: ClaimVerdict, claim_hash: ContentHash) -> (r: Self)
        ensures
            r.component@ == COMPONENT@,
            r.epoch == epoch,
            r.verdict == verdict,
            r.claim_hash == claim_hash,
            r.receipt_hash@ == sha256_digest(
                sha256_digest(
                    utf8(COMPONENT@) + u64_le(epoch.0) + utf8(verdict.name()) + claim_hash@,
                ),
            ),
    {
        let component = owned(COMPONENT);
        let mut buf: Vec<u8> = Vec::new();
        push_str(&mut buf, component.as_str());
        push_u64_le(&mut buf, epoch.as_u64());
        push_str(&mut buf, verdict.as_str());
        push_bytes(&mut buf, claim_hash.as_bytes());
        let d = ContentHash::compute(buf.as_slice());
        let receipt_hash = ContentHash::compute(d.as_bytes());
        DecisionReceipt { receipt_hash, component, epoch, verdict, claim_hash }
    }

    /// Display rendering `receipt[verdict]: component at epoch:<n>`.
    pub fn to_string(&self) -> (r: String)
        ensures
            r@ == "receipt["@ + self.verdict.name() + "]: "@ + self.component@ + " at "@
                + "epoch:"@ + decimal(self.epoch.0 as nat),
    {
        let mut s = owned("receipt[");
        s.append(self.verdict.as_str());
        s.append("]: ");
        s.append(self.component.as_str());
        s.append(" at ");
        s.append(self.epoch.to_string().as_str());
        s
    }
}

// ---------------------------------------------------------------------------
// Core evaluation functions
// ---------------------------------------------------------------------------

/// The verdict for a claim with enough samples, by transport residual.
pub open spec fn residual_verdict(claim: HardwareClaim, config: GateConfig) -> ClaimVerdict {
    if claim.transport_residual >= config.full_transport_threshold {
        ClaimVerdict::Confirmed
    } else if claim.transport_residual >= config.partial_transport_threshold {
        ClaimVerdict::Downgraded
    } else if claim.transport_residual >= config.degraded_threshold {
        ClaimVerdict::RequiresLocal
    } else {
        ClaimVerdict::Unsupported
    }
}

/// The verdict `evaluate` reaches.
pub open spec fn claim_verdict(claim: HardwareClaim, config: GateConfig) -> ClaimVerdict {
    if claim.sample_count < config.min_samples {
        ClaimVerdict::InsufficientEvidence
    } else {
        residual_verdict(claim, config)
    }
}

/// Degradation reasons read off the claim's residual and sample count.
pub open spec fn degradation_reasons(claim: HardwareClaim, config: GateConfig) -> Seq<
    DegradationReason,
> {
    let r = claim.transport_residual;
    let s1: Seq<DegradationReason> = if r < config.full_transport_threshold {
        seq![DegradationReason::MicroarchVariance]
    } else {
        Seq::empty()
    };
    let s2 = if r < config.partial_transport_threshold {
        s1.push(DegradationReason::ArchMismatch)
    } else {
        s1
    };
    let s3 = if r < config.degraded_threshold {
        s2.push(DegradationReason::VectorWidthLoss).push(DegradationReason::CacheSizeDifference)
    } else {
        s2
    };
    let s4 = if claim.sample_count < config.min_samples {
        s3.push(DegradationReason::InsufficientSamples)
    } else {
        s3
    };
    if r < config.degraded_threshold / 2 {
        s4.push(DegradationReason::ResidualTooLow)
    } else {
        s4
    }
}

/// The reasons `evaluate` records.
pub open spec fn evidence_reasons(claim: HardwareClaim, config: GateConfig) -> Seq<
    DegradationReason,
> {
    if claim.sample_count < config.min_samples {
        seq![DegradationReason::InsufficientSamples]
    } else {
        degradation_reasons(claim, config)
    }
}

/// Collect degradation reasons from a hardware claim's properties.
fn collect_degradation_reasons(claim: &HardwareClaim, config: &GateConfig) -> (r: Vec<
    DegradationReason,
>)
    ensures
        r@ == degradation_reasons(*claim, *config),
{
    let mut reasons: Vec<DegradationReason> = Vec::new();
    if claim.transport_residual < config.full_transport_threshold {
        reasons.push(DegradationReason::MicroarchVariance);
    }
    if claim.transport_residual < config.partial_transport_threshold {
        reasons.push(DegradationReason::ArchMismatch);
    }
    if claim.transport_residual < config.degraded_threshold {
        reasons.push(DegradationReason::VectorWidthLoss);
        reasons.push(DegradationReason::CacheSizeDifference);
    }
    if claim.sample_count < config.min_samples {
        reasons.push(DegradationReason::InsufficientSamples);
    }
    if claim.transport_residual < config.degraded_threshold / 2 {
        reasons.push(DegradationReason::ResidualTooLow);
    }
    assert(reasons@ =~= degradation_reasons(*claim, *config));
    reasons.truncate(MAX_DEGRADATION_REASONS);
    reasons
}

/// Head `kind claim from src to tgt` shared by all explanations.
pub open spec fn explanation_head(claim: HardwareClaim) -> Seq<char> {
    claim.kind.name() + " claim from "@ + claim.source_cell_id@ + " to "@ + claim.target_cell_id@
}

/// Human-readable explanation of a verdict.
pub open spec fn explanation_text(
    claim: HardwareClaim,
    verdict: ClaimVerdict,
    reasons: Seq<DegradationReason>,
) -> Seq<char> {
    let head = explanation_head(claim);
    let res = decimal(claim.transport_residual as nat);
    match verdict {
        ClaimVerdict::Confirmed => head + " confirmed: transport residual "@ + res
            + " supports claimed improvement "@ + decimal(claim.claimed_improvement as nat),
        ClaimVerdict::Downgraded => head + " downgraded: transport residual "@ + res
            + " is below full-transport threshold; "@ + decimal(reasons.len())
            + " degradation reason(s) identified"@,
        ClaimVerdict::RequiresLocal => head
            + " requires fresh local measurement: transport residual "@ + res
            + " is too low for cross-cell promotion; "@ + decimal(reasons.len())
            + " degradation reason(s)"@,
        ClaimVerdict::Unsupported => head + " marked unsupported: transport residual "@ + res
            + " below minimum threshold; hardware region cannot be served. Reasons: "@
            + join_reason_names(reasons),
        ClaimVerdict::InsufficientEvidence => head + " has insufficient evidence: "@ + decimal(
            claim.sample_count as nat,
        ) + " sample(s) collected"@,
    }
}

fn join_reasons(reasons: &Vec<DegradationReason>) -> (r: String)
    ensures
        r@ == join_reason_names(reasons@),
{
    let mut s = String::new();
    let mut i: usize = 0;
    while i < reasons.len()
        invariant
            i <= reasons@.len(),
            s@ == join_reason_names(reasons@.take(i as int)),
        decreases reasons@.len() - i,
    {
        if i > 0 {
            s.append(", ");
        }
        s.append(reasons[i].as_str());
        i = i + 1;
        assert(reasons@.take(i as int).drop_last() =~= reasons@.take(i - 1));
    }
    assert(reasons@.take(i as int) =~= reasons@);
    s
}

/// Build a human-readable explanation of the verdict.
fn build_explanation(
    claim: &HardwareClaim,
    verdict: ClaimVerdict,
    reasons: &Vec<DegradationReason>,
) -> (r: String)
    ensures
        r@ == explanation_text(*claim, verdict, reasons@),
{
    let mut s = owned(claim.kind.as_str());
    s.append(" claim from ");
    s.append(claim.source_cell_id.as_str());
    s.append(" to ");
    s.append(claim.target_cell_id.as_str());
    let res = u64_to_decimal(claim.transport_residual);
    match verdict {
        ClaimVerdict::Confirmed => {
            s.append(" confirmed: transport residual ");
            s.append(res.as_str());
            s.append(" supports claimed improvement ");
            s.append(u64_to_decimal(claim.claimed_improvement).as_str());
        },
        ClaimVerdict::Downgraded => {
            s.append(" downgraded: transport residual ");
            s.append(res.as_str());
            s.append(" is below full-transport threshold; ");
            s.append(u64_to_decimal(reasons.len() as u64).as_str());
            s.append(" degradation reason(s) identified");
        },
        ClaimVerdict::RequiresLocal => {
            s.append(" requires fresh local measurement: transport residual ");
            s.append(res.as_str());
            s.append(" is too low for cross-cell promotion; ");
            s.append(u64_to_decimal(reasons.len() as u64).as_str());
            s.append(" degradation reason(s)");
        },
        ClaimVerdict::Unsupported => {
            s.append(" marked unsupported: transport residual ");
            s.append(res.as_str());
            s.append(
                " below minimum threshold; hardware region cannot be served. Reasons: ",
            );
            s.append(join_reasons(reasons).as_str());
        },
        ClaimVerdict::InsufficientEvidence => {
            s.append(" has insufficient evidence: ");
            s.append(u64_to_decimal(claim.sample_count).as_str());
            s.append(" sample(s) collected");
        },
    }
    s
}

/// Evaluate a single hardware claim against a gate configuration.
///
/// The verdict is `InsufficientEvidence` when the sample count is below the
/// minimum, and otherwise follows the residual thresholds from the top down.
pub fn evaluate(claim: &HardwareClaim, config: &GateConfig) -> (r: ClaimEvidence)
    ensures
        r.claim == *claim,
        r.verdict == claim_verdict(*claim, *config),
        r.degradation_reasons@ == evidence_reasons(*claim, *config),
        r.residual_fraction == claim.transport_residual,
        r.transport_certificate_hash@ == claim.hash(),
        r.explanation@ == explanation_text(*claim, r.verdict, r.degradation_reasons@),
{
    if claim.sample_count < config.min_samples {
        let reasons = vec![DegradationReason::InsufficientSamples];
        let explanation = build_explanation(claim, ClaimVerdict::InsufficientEvidence, &reasons);
        return ClaimEvidence {
            claim: claim.clone(),
            verdict: ClaimVerdict::InsufficientEvidence,
            degradation_reasons: reasons,
            residual_fraction: claim.transport_residual,
            transport_certificate_hash: claim.content_hash(),
            explanation,
        };
    }
    let verdict = if claim.transport_residual >= config.full_transport_threshold {
        ClaimVerdict::Confirmed
    } else if claim.transport_residual >= config.partial_transport_threshold {
        ClaimVerdict::Downgraded
    } else if claim.transport_residual >= config.degraded_threshold {
        ClaimVerdict::RequiresLocal
    } else {
        ClaimVerdict::Unsupported
    };
    let reasons = collect_degradation_reasons(claim, config);
    let explanation = build_explanation(claim, verdict, &reasons);
    ClaimEvidence {
        claim: claim.clone(),
        verdict,
        degradation_reasons: reasons,
        residual_fraction: claim.transport_residual,
        transport_certificate_hash: claim.content_hash(),
        explanation,
    }
}

/// The decision `evaluate_promotion` reaches for a verdict and residual.
pub open spec fn promotion_decision(
    verdict: ClaimVerdict,
    residual: u64,
    config: GateConfig,
) -> PromotionDecision {
    match verdict {
        ClaimVerdict::Confirmed => PromotionDecision::Promote,
        ClaimVerdict::Downgraded => if residual >= (if config.full_transport_threshold
            >= config.rollback_regression_threshold {
            (config.full_transport_threshold - config.rollback_regression_threshold) as u64
        } else {
            0u64
        }) {
            PromotionDecision::Promote
        } else {
            PromotionDecision::Hold
        },
        ClaimVerdict::RequiresLocal => PromotionDecision::RequireFreshMeasurement,
        ClaimVerdict::Unsupported => PromotionDecision::Rollback,
        ClaimVerdict::InsufficientEvidence => PromotionDecision::Hold,
    }
}

/// The reason text `evaluate_promotion` records.
pub open spec fn promotion_reason(verdict: ClaimVerdict, decision: PromotionDecision, residual: u64) -> Seq<char> {
    let res = decimal(residual as nat);
    match verdict {
        ClaimVerdict::Confirmed => "transport evidence fully supports promotion"@,
        ClaimVerdict::Downgraded => if decision == PromotionDecision::Promote {
            "downgraded but residual "@ + res + " within regression tolerance"@
        } else {
            "downgraded with residual "@ + res + "; holding pending further evidence"@
        },
        ClaimVerdict::RequiresLocal => "transport residual "@ + res
            + " too low; fresh local measurement required"@,
        ClaimVerdict::Unsupported => "hardware region unsupported (residual "@ + res
            + "); rolling back"@,
        ClaimVerdict::InsufficientEvidence => "insufficient evidence to make promotion decision"@,
    }
}

/// Evaluate a promotion decision based on claim evidence.
pub fn evaluate_promotion(evidence: &ClaimEvidence, config: &GateConfig) -> (r: PromotionRecord)
    ensures
        r.decision == promotion_decision(evidence.verdict, evidence.residual_fraction, *config),
        r.reason@ == promotion_reason(evidence.verdict, r.decision, evidence.residual_fraction),
        r.claim_id@ == claim_label(evidence.claim),
        r.evidence_hash@ == evidence.hash(),
        r.epoch == evidence.claim.epoch,
{
    let res = u64_to_decimal(evidence.residual_fraction);
    let (decision, reason) = match evidence.verdict {
        ClaimVerdict::Confirmed => (
            PromotionDecision::Promote,
            owned("transport evidence fully supports promotion"),
        ),
        ClaimVerdict::Downgraded => {
            if evidence.residual_fraction >= config.full_transport_threshold.saturating_sub(
                config.rollback_regression_threshold,
            ) {
                let mut s = owned("downgraded but residual ");
                s.append(res.as_str());
                s.append(" within regression tolerance");
                (PromotionDecision::Promote, s)
            } else {
                let mut s = owned("downgraded with residual ");
                s.append(res.as_str());
                s.append("; holding pending further evidence");
                (PromotionDecision::Hold, s)
            }
        },
        ClaimVerdict::RequiresLocal => {
            let mut s = owned("transport residual ");
            s.append(res.as_str());
            s.append(" too low; fresh local measurement required");
            (PromotionDecision::RequireFreshMeasurement, s)
        },
        ClaimVerdict::Unsupported => {
            let mut s = owned("hardware region unsupported (residual ");
            s.append(res.as_str());
            s.append("); rolling back");
            (PromotionDecision::Rollback, s)
        },
        ClaimVerdict::InsufficientEvidence => (
            PromotionDecision::Hold,
            owned("insufficient evidence to make promotion decision"),
        ),
    };
    PromotionRecord {
        claim_id: claim_label_exec(&evidence.claim),
        decision,
        evidence_hash: evidence.content_hash(),
        epoch: evidence.claim.epoch,
        reason,
    }
}

/// Evaluate a batch of hardware claims, returning per-claim evidence and
/// an aggregate summary.
pub fn evaluate_batch(claims: &[HardwareClaim], config: &GateConfig) -> (r: (
    Vec<ClaimEvidence>,
    GateSummary,
))
    ensures
        r.0@.len() == claims@.len(),
        forall|i: int|
            0 <= i < claims@.len() ==> {
                &&& (#[trigger] r.0@[i]).claim == claims@[i]
                &&& r.0@[i].verdict == claim_verdict(claims@[i], *config)
                &&& r.0@[i].degradation_reasons@ == evidence_reasons(claims@[i], *config)
                &&& r.0@[i].residual_fraction == claims@[i].transport_residual
                &&& r.0@[i].transport_certificate_hash@ == claims@[i].hash()
                &&& r.0@[i].explanation@ == explanation_text(
                    claims@[i],
                    r.0@[i].verdict,
                    r.0@[i].degradation_reasons@,
                )
            },
        r.1 == GateSummary::of_verdicts(r.0@.map_values(|e: ClaimEvidence| e.verdict)),
{
    let mut evidence: Vec<ClaimEvidence> = Vec::new();
    let mut verdicts: Vec<ClaimVerdict> = Vec::new();
    let mut i: usize = 0;
    while i < claims.len()
        invariant
            i <= claims@.len(),
            evidence@.len() == i,
            verdicts@.len() == i,
            forall|j: int|
                0 <= j < i ==> {
                    &&& (#[trigger] evidence@[j]).claim == claims@[j]
                    &&& evidence@[j].verdict == claim_verdict(claims@[j], *config)
                    &&& evidence@[j].degradation_reasons@ == evidence_reasons(claims@[j], *config)
                    &&& evidence@[j].residual_fraction == claims@[j].transport_residual
                    &&& evidence@[j].transport_certificate_hash@ == claims@[j].hash()
                    &&& evidence@[j].explanation@ == explanation_text(
                        claims@[j],
                        evidence@[j].verdict,
                        evidence@[j].degradation_reasons@,
                    )
                    &&& verdicts@[j] == evidence@[j].verdict
                },
        decreases claims@.len() - i,
    {
        let e = evaluate(&claims[i], config);
        verdicts.push(e.verdict);
        evidence.push(e);
        i = i + 1;
    }
    let summary = GateSummary::from_verdicts(verdicts.as_slice());
    assert(verdicts@ =~= evidence@.map_values(|e: ClaimEvidence| e.verdict));
    (evidence, summary)
}


// ---------------------------------------------------------------------------
// Laws
// ---------------------------------------------------------------------------

/// How strongly a verdict backs a claim: Unsupported lowest, then
/// RequiresLocal and Downgraded, Confirmed highest.
pub open spec fn verdict_strength(v: ClaimVerdict) -> int {
    match v {
        ClaimVerdict::Unsupported => 0,
        ClaimVerdict::RequiresLocal => 1,
        ClaimVerdict::Downgraded => 2,
        ClaimVerdict::Confirmed => 3,
        ClaimVerdict::InsufficientEvidence => -1,
    }
}

/// Of two claims with the same sample count, the one that transports at
/// least as well never gets a weaker verdict, whatever the thresholds.
pub proof fn law_verdict_monotone_in_residual(a: HardwareClaim, b: HardwareClaim, config: GateConfig)
    requires
        a.transport_residual <= b.transport_residual,
        a.sample_count == b.sample_count,
    ensures
        verdict_strength(claim_verdict(a, config)) <= verdict_strength(claim_verdict(b, config)),
{
}

/// A claim is promoted only where its transport evidence supports it: it
/// had enough samples, and its residual reaches the full-transport
/// threshold, or the partial one and the full one less the regression
/// tolerance.
pub proof fn law_promotion_needs_transport(claim: HardwareClaim, config: GateConfig)
    requires
        promotion_decision(claim_verdict(claim, config), claim.transport_residual, config)
            == PromotionDecision::Promote,
    ensures
        claim.sample_count >= config.min_samples,
        claim.transport_residual >= config.full_transport_threshold || (claim.transport_residual
            >= config.partial_transport_threshold && claim.transport_residual + config.rollback_regression_threshold
            >= config.full_transport_threshold),
{
}

proof fn lemma_counts_partition(vs: Seq<ClaimVerdict>)
    ensures
        count_verdict(vs, ClaimVerdict::Confirmed) + count_verdict(vs, ClaimVerdict::Downgraded)
            + count_verdict(vs, ClaimVerdict::RequiresLocal) + count_verdict(vs, ClaimVerdict::Unsupported)
            + count_verdict(vs, ClaimVerdict::InsufficientEvidence) == vs.len(),
        (count_verdict(vs, ClaimVerdict::RequiresLocal) == 0 && count_verdict(vs, ClaimVerdict::Unsupported) == 0
            && count_verdict(vs, ClaimVerdict::InsufficientEvidence) == 0) <==> (forall|i: int|
            0 <= i < vs.len() ==> (#[trigger] vs[i]).usable()),
    decreases vs.len(),
{
    if vs.len() > 0 {
        lemma_counts_partition(vs.drop_last());
        let p = vs.drop_last();
        if forall|i: int| 0 <= i < vs.len() ==> (#[trigger] vs[i]).usable() {
            assert forall|i: int| 0 <= i < p.len() implies (#[trigger] p[i]).usable() by {
                assert(p[i] == vs[i]);
            }
            assert(vs[vs.len() - 1].usable());
        }
        if forall|i: int| 0 <= i < p.len() ==> (#[trigger] p[i]).usable() {
            if vs.last().usable() {
                assert forall|i: int| 0 <= i < vs.len() implies (#[trigger] vs[i]).usable() by {
                    if i < p.len() {
                        assert(p[i] == vs[i]);
                    }
                }
            }
        }
        if !(forall|i: int| 0 <= i < p.len() ==> (#[trigger] p[i]).usable()) {
            let j = choose|j: int| 0 <= j < p.len() && !(#[trigger] p[j]).usable();
            assert(vs[j] == p[j]);
        }
    }
}

/// Counting a verdict counts its occurrences in the list's multiset.
proof fn lemma_count_is_multiplicity(vs: Seq<ClaimVerdict>, v: ClaimVerdict)
    ensures
        count_verdict(vs, v) == vs.to_multiset().count(v),
    decreases vs.len(),
{
    broadcast use vstd::multiset::group_multiset_axioms;

    if vs.len() == 0 {
        assert(vs.to_multiset() =~= vstd::multiset::Multiset::<ClaimVerdict>::empty()) by {
            broadcast use vstd::seq_lib::group_to_multiset_ensures;
        }
    } else {
        lemma_count_is_multiplicity(vs.drop_last(), v);
        assert(vs =~= vs.drop_last().push(vs.last()));
        vstd::seq_lib::to_multiset_build(vs.drop_last(), vs.last());
    }
}

/// A summary depends only on how often each verdict occurs, not on the
/// order of the claims: two lists with the same verdicts (as multisets)
/// give the same summary.
pub proof fn law_summary_order_independent(vs: Seq<ClaimVerdict>, ws: Seq<ClaimVerdict>)
    requires
        vs.to_multiset() == ws.to_multiset(),
    ensures
        GateSummary::of_verdicts(vs) == GateSummary::of_verdicts(ws),
{
    lemma_count_is_multiplicity(vs, ClaimVerdict::Confirmed);
    lemma_count_is_multiplicity(ws, ClaimVerdict::Confirmed);
    lemma_count_is_multiplicity(vs, ClaimVerdict::Downgraded);
    lemma_count_is_multiplicity(ws, ClaimVerdict::Downgraded);
    lemma_count_is_multiplicity(vs, ClaimVerdict::RequiresLocal);
    lemma_count_is_multiplicity(ws, ClaimVerdict::RequiresLocal);
    lemma_count_is_multiplicity(vs, ClaimVerdict::Unsupported);
    lemma_count_is_multiplicity(ws, ClaimVerdict::Unsupported);
    lemma_count_is_multiplicity(vs, ClaimVerdict::InsufficientEvidence);
    lemma_count_is_multiplicity(ws, ClaimVerdict::InsufficientEvidence);
    vstd::seq_lib::to_multiset_len(vs);
    vstd::seq_lib::to_multiset_len(ws);
    assert(vs.len() == ws.len());
}

/// The five verdict counts of a summary add up to its total, and a summary
/// passes as a whole exactly when there is some claim and every claim was
/// Confirmed or Downgraded.
pub proof fn law_summary_partition(vs: Seq<ClaimVerdict>)
    requires
        vs.len() <= usize::MAX,
    ensures
        ({
            let s = GateSummary::of_verdicts(vs);
            &&& s.total_claims == vs.len()
            &&& s.confirmed + s.downgraded + s.requires_local + s.unsupported + s.insufficient == s.total_claims
            &&& (s.total_claims > 0 && s.requires_local == 0 && s.unsupported == 0 && s.insufficient == 0)
                <==> (vs.len() > 0 && forall|i: int| 0 <= i < vs.len() ==> (#[trigger] vs[i]).usable())
        }),
{
    lemma_counts_partition(vs);
    lemma_count_verdict_le(vs, ClaimVerdict::Confirmed);
    lemma_count_verdict_le(vs, ClaimVerdict::Downgraded);
    lemma_count_verdict_le(vs, ClaimVerdict::RequiresLocal);
    lemma_count_verdict_le(vs, ClaimVerdict::Unsupported);
    lemma_count_verdict_le(vs, ClaimVerdict::InsufficientEvidence);
}

/// Transport evidence earns promotion: a claim with enough samples is
/// promoted exactly when its residual reaches the full-transport threshold,
/// or reaches the partial threshold and falls short of the full one by no
/// more than the regression tolerance.
pub proof fn law_transport_earns_promotion(claim: HardwareClaim, config: GateConfig)
    ensures
        (promotion_decision(claim_verdict(claim, config), claim.transport_residual, config)
            == PromotionDecision::Promote) <==> (claim.sample_count >= config.min_samples && (
        claim.transport_residual >= config.full_transport_threshold || (claim.transport_residual
            >= config.partial_transport_threshold && claim.transport_residual
            + config.rollback_regression_threshold >= config.full_transport_threshold))),
{
}

/// A downgraded verdict is promoted exactly when its residual is within the
/// regression tolerance of the full-transport threshold, and held
/// otherwise.
pub proof fn law_downgraded_promotion(residual: u64, config: GateConfig)
    ensures
        promotion_decision(ClaimVerdict::Downgraded, residual, config) == if residual
            + config.rollback_regression_threshold >= config.full_transport_threshold {
            PromotionDecision::Promote
        } else {
            PromotionDecision::Hold
        },
{
}

} // verus!
