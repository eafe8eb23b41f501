//! Hindsight trace escalation from minimal traces to full replay bundles.
//!
//! Triggers are typed by category and severity; a policy resolves each trigger
//! to an escalation level (Minimal, Extended, Full, Forensic), and the
//! escalator approves or suppresses the escalation by capacity and per
//! correlation cooldown.  Every decision carries a content-addressed hash and
//! is recorded in a bounded decision log, so the observability regime never
//! changes without a record of why.

use crate::foundation::{
    decimal, hex_lower, owned, push_str, push_u32_le, push_u64_le, sha256_bytes_hex,
    sha256_digest, sha256_text_hex, text_digest_hex, u32_le, u64_le, u64_to_decimal, utf8,
    SecurityEpoch,
};
use crate::strmap::StrMap;
use vstd::prelude::*;

verus! {

/// Schema version of escalation artifacts.
pub const ESCALATION_SCHEMA_VERSION: &'static str = "franken-engine.hindsight-trace-escalator.v1";

/// Bead identifier of this component.
pub const ESCALATION_BEAD_ID: &'static str = "bd-1lsy.9.11.3";

// ---------------------------------------------------------------------------
// EscalationLevel
// ---------------------------------------------------------------------------

/// Progressive escalation levels for trace collection depth.
#[derive(Debug, Clone, Copy, PartialEq, Eq, PartialOrd, Ord, Hash, Structural)]
pub enum EscalationLevel {
    /// Lightweight counters and decision hashes only.
    Minimal,
    /// Adds decision logs, boundary snapshots, timing traces.
    Extended,
    /// Adds complete replay inputs, IR snapshots, controller state.
    Full,
    /// Adds raw memory dumps and step-by-step execution logs.
    Forensic,
}

impl EscalationLevel {
    /// Numeric depth (higher collects more data).
    pub open spec fn depth_of(self) -> u32 {
        match self {
            EscalationLevel::Minimal => 0,
            EscalationLevel::Extended => 1,
            EscalationLevel::Full => 2,
            EscalationLevel::Forensic => 3,
        }
    }

    /// Numeric depth for ordering (higher = more data).
    pub fn depth(self) -> (r: u32)
        ensures
            r == self.depth_of(),
    {
        match self {
            EscalationLevel::Minimal => 0,
            EscalationLevel::Extended => 1,
            EscalationLevel::Full => 2,
            EscalationLevel::Forensic => 3,
        }
    }

    /// Stable name of the level.
    pub open spec fn name(self) -> Seq<char> {
        match self {
            EscalationLevel::Minimal => "minimal"@,
            EscalationLevel::Extended => "extended"@,
            EscalationLevel::Full => "full"@,
            EscalationLevel::Forensic => "forensic"@,
        }
    }

    /// Stable name of the level.
    pub fn as_str(self) -> (r: &'static str)
        ensures
            r@ == self.name(),
    {
        match self {
            EscalationLevel::Minimal => "minimal",
            EscalationLevel::Extended => "extended",
            EscalationLevel::Full => "full",
            EscalationLevel::Forensic => "forensic",
        }
    }

    /// Display rendering (the stable name).
    pub fn to_string(&self) -> (r: String)
        ensures
            r@ == self.name(),
    {
        owned(self.as_str())
    }
}

// ---------------------------------------------------------------------------
// TriggerCategory
// ---------------------------------------------------------------------------

/// Category of escalation trigger.
#[derive(Debug, Clone, Copy, PartialEq, Eq, PartialOrd, Ord, Hash, Structural)]
pub enum TriggerCategory {
    PerformanceAnomaly,
    SecurityEvent,
    CorrectnessFailure,
    UserVisibleError,
    Regression,
    OperatorRequest,
    ResourceExhaustion,
    DeterminismViolation,
}

impl TriggerCategory {
    /// Stable name of the category.
    pub open spec fn name(self) -> Seq<char> {
        match self {
            TriggerCategory::PerformanceAnomaly => "performance_anomaly"@,
            TriggerCategory::SecurityEvent => "security_event"@,
            TriggerCategory::CorrectnessFailure => "correctness_failure"@,
            TriggerCategory::UserVisibleError => "user_visible_error"@,
            TriggerCategory::Regression => "regression"@,
            TriggerCategory::OperatorRequest => "operator_request"@,
            TriggerCategory::ResourceExhaustion => "resource_exhaustion"@,
            TriggerCategory::DeterminismViolation => "determinism_violation"@,
        }
    }

    /// Stable name of the category.
    pub fn as_str(self) -> (r: &'static str)
        ensures
            r@ == self.name(),
    {
        match self {
            TriggerCategory::PerformanceAnomaly => "performance_anomaly",
            TriggerCategory::SecurityEvent => "security_event",
            TriggerCategory::CorrectnessFailure => "correctness_failure",
            TriggerCategory::UserVisibleError => "user_visible_error",
            TriggerCategory::Regression => "regression",
            TriggerCategory::OperatorRequest => "operator_request",
            TriggerCategory::ResourceExhaustion => "resource_exhaustion",
            TriggerCategory::DeterminismViolation => "determinism_violation",
        }
    }

    /// Display rendering (the stable name).
    pub fn to_string(&self) -> (r: String)
        ensures
            r@ == self.name(),
    {
        owned(self.as_str())
    }
}

// ---------------------------------------------------------------------------
// TriggerSeverity
// ---------------------------------------------------------------------------

/// How urgently evidence must be captured.
#[derive(Debug, Clone, Copy, PartialEq, Eq, PartialOrd, Ord, Hash, Structural)]
pub enum TriggerSeverity {
    Info,
    Warning,
    Critical,
    Fatal,
}

impl TriggerSeverity {
    /// Minimum escalation level a severity calls for.
    pub open spec fn min_level(self) -> EscalationLevel {
        match self {
            TriggerSeverity::Info => EscalationLevel::Extended,
            TriggerSeverity::Warning => EscalationLevel::Extended,
            TriggerSeverity::Critical => EscalationLevel::Full,
            TriggerSeverity::Fatal => EscalationLevel::Forensic,
        }
    }

    /// Map severity to minimum escalation level.
    pub fn minimum_escalation(self) -> (r: EscalationLevel)
        ensures
            r == self.min_level(),
    {
        match self {
            TriggerSeverity::Info => EscalationLevel::Extended,
            TriggerSeverity::Warning => EscalationLevel::Extended,
            TriggerSeverity::Critical => EscalationLevel::Full,
            TriggerSeverity::Fatal => EscalationLevel::Forensic,
        }
    }

    /// Stable name of the severity.
    pub open spec fn name(self) -> Seq<char> {
        match self {
            TriggerSeverity::Info => "info"@,
            TriggerSeverity::Warning => "warning"@,
            TriggerSeverity::Critical => "critical"@,
            TriggerSeverity::Fatal => "fatal"@,
        }
    }

    /// Stable name of the severity.
    pub fn as_str(self) -> (r: &'static str)
        ensures
            r@ == self.name(),
    {
        match self {
            TriggerSeverity::Info => "info",
            TriggerSeverity::Warning => "warning",
            TriggerSeverity::Critical => "critical",
            TriggerSeverity::Fatal => "fatal",
        }
    }

    /// Display rendering (the stable name).
    pub fn to_string(&self) -> (r: String)
        ensures
            r@ == self.name(),
    {
        owned(self.as_str())
    }
}

// ---------------------------------------------------------------------------
// EscalationTrigger
// ---------------------------------------------------------------------------

/// A typed escalation trigger with context.
#[derive(Debug, PartialEq, Eq)]
pub struct EscalationTrigger {
    /// Unique trigger identifier.
    pub trigger_id: String,
    pub category: TriggerCategory,
    pub severity: TriggerSeverity,
    /// Human-readable description.
    pub description: String,
    /// Component that raised the trigger.
    pub source_component: String,
    /// Security epoch when triggered.
    pub epoch: SecurityEpoch,
    /// Optional correlation ID grouping related triggers.
    pub correlation_id: Option<String>,
    /// Additional structured metadata.
    pub metadata: StrMap<String>,
}

/// Copy of an optional string.
fn copy_opt_string(s: &Option<String>) -> (r: Option<String>)
    ensures
        r == *s,
{
    match s {
        Some(v) => Some(v.clone()),
        None => None,
    }
}

/// Rendering of an optional correlation identifier (`none` when absent).
pub open spec fn correlation_text(c: Option<String>) -> Seq<char> {
    match c {
        Some(s) => s@,
        None => "none"@,
    }
}

impl EscalationTrigger {
    /// Two triggers with the same fields (metadata compared by entries).
    pub open spec fn same_as(self, other: EscalationTrigger) -> bool {
        &&& self.trigger_id == other.trigger_id
        &&& self.category == other.category
        &&& self.severity == other.severity
        &&& self.description == other.description
        &&& self.source_component == other.source_component
        &&& self.epoch == other.epoch
        &&& self.correlation_id == other.correlation_id
        &&& self.metadata.entries() == other.metadata.entries()
    }

    /// Create a trigger without correlation identifier or metadata.
    pub fn new(
        trigger_id: &str,
        category: TriggerCategory,
        severity: TriggerSeverity,
        description: &str,
        source_component: &str,
        epoch: SecurityEpoch,
    ) -> (r: Self)
        ensures
            r.trigger_id@ == trigger_id@,
            r.category == category,
            r.severity == severity,
            r.description@ == description@,
            r.source_component@ == source_component@,
            r.epoch == epoch,
            r.correlation_id is None,
            r.metadata.entries().len() == 0,
    {
        EscalationTrigger {
            trigger_id: owned(trigger_id),
            category,
            severity,
            description: owned(description),
            source_component: owned(source_component),
            epoch,
            correlation_id: None,
            metadata: StrMap::new(),
        }
    }

    /// Text hashed for deduplication: `id:category:severity:source:epoch:correlation`.
    pub open spec fn hash_text(self) -> Seq<char> {
        self.trigger_id@ + ":"@ + self.category.name() + ":"@ + self.severity.name() + ":"@
            + self.source_component@ + ":"@ + decimal(self.epoch.0 as nat) + ":"@
            + correlation_text(self.correlation_id)
    }

    /// Content hash (lowercase hex) for deduplication and replay verification.
    pub fn content_hash(&self) -> (r: String)
        ensures
            r@ == text_digest_hex(self.hash_text()),
    {
        let mut s = self.trigger_id.clone();
        s.append(":");
        s.append(self.category.as_str());
        s.append(":");
        s.append(self.severity.as_str());
        s.append(":");
        s.append(self.source_component.as_str());
        s.append(":");
        s.append(u64_to_decimal(self.epoch.as_u64()).as_str());
        s.append(":");
        match &self.correlation_id {
            Some(c) => s.append(c.as_str()),
            None => s.append("none"),
        }
        sha256_text_hex(s.as_str())
    }
}

impl Clone for EscalationTrigger {
    fn clone(&self) -> (r: Self)
        ensures
            r.same_as(*self),
    {
        let metadata = self.metadata.clone();
        proof {
            assert(metadata.entries() =~= self.metadata.entries());
        }
        EscalationTrigger {
            trigger_id: self.trigger_id.clone(),
            category: self.category,
            severity: self.severity,
            description: self.description.clone(),
            source_component: self.source_component.clone(),
            epoch: self.epoch,
            correlation_id: copy_opt_string(&self.correlation_id),
            metadata,
        }
    }
}

// ---------------------------------------------------------------------------
// BundleArtifactSpec
// ---------------------------------------------------------------------------

/// What to include in an escalation bundle at a given level.
#[derive(Debug, PartialEq, Eq)]
pub struct BundleArtifactSpec {
    /// Label of this artifact class.
    pub label: String,
    /// File extension or format identifier.
    pub format: String,
    /// Minimum escalation level for inclusion.
    pub min_level: EscalationLevel,
    /// Whether the artifact is required (vs optional).
    pub required: bool,
    /// Estimated size in bytes (0 if unknown).
    pub estimated_bytes: u64,
}

impl Clone for BundleArtifactSpec {
    fn clone(&self) -> (r: Self)
        ensures
            r == *self,
    {
        BundleArtifactSpec {
            label: self.label.clone(),
            format: self.format.clone(),
            min_level: self.min_level,
            required: self.required,
            estimated_bytes: self.estimated_bytes,
        }
    }
}

fn artifact(
    label: &str,
    format: &str,
    min_level: EscalationLevel,
    required: bool,
    estimated_bytes: u64,
) -> (r: BundleArtifactSpec)
    ensures
        r.label@ == label@,
        r.format@ == format@,
        r.min_level == min_level,
        r.required == required,
        r.estimated_bytes == estimated_bytes,
{
    BundleArtifactSpec {
        label: owned(label),
        format: owned(format),
        min_level,
        required,
        estimated_bytes,
    }
}

/// The standard artifact table: `(label, format, min_level, required, bytes)`.
pub open spec fn standard_row(i: int) -> (Seq<char>, Seq<char>, EscalationLevel, bool, u64) {
    if i == 0 {
        ("decision_hashes"@, "jsonl"@, EscalationLevel::Minimal, true, 4096)
    } else if i == 1 {
        ("counter_snapshot"@, "json"@, EscalationLevel::Minimal, true, 2048)
    } else if i == 2 {
        ("decision_log"@, "jsonl"@, EscalationLevel::Extended, true, 65536)
    } else if i == 3 {
        ("boundary_snapshots"@, "jsonl"@, EscalationLevel::Extended, true, 32768)
    } else if i == 4 {
        ("timing_trace"@, "jsonl"@, EscalationLevel::Extended, false, 131072)
    } else if i == 5 {
        ("replay_inputs"@, "bin"@, EscalationLevel::Full, true, 524288)
    } else if i == 6 {
        ("ir_snapshots"@, "json"@, EscalationLevel::Full, true, 262144)
    } else if i == 7 {
        ("controller_state"@, "json"@, EscalationLevel::Full, false, 16384)
    } else if i == 8 {
        ("execution_step_log"@, "jsonl"@, EscalationLevel::Forensic, true, 4194304)
    } else {
        ("memory_dump"@, "bin"@, EscalationLevel::Forensic, false, 16777216)
    }
}

/// Whether an artifact spec equals row `i` of the standard table.
pub open spec fn is_standard_row(a: BundleArtifactSpec, i: int) -> bool {
    let row = standard_row(i);
    &&& a.label@ == row.0
    &&& a.format@ == row.1
    &&& a.min_level == row.2
    &&& a.required == row.3
    &&& a.estimated_bytes == row.4
}

/// Standard artifact specs for escalation bundles.
pub fn standard_artifact_specs() -> (r: Vec<BundleArtifactSpec>)
    ensures
        r@.len() == 10,
        forall|i: int| 0 <= i < 10 ==> is_standard_row(#[trigger] r@[i], i),
{
    let r = vec![
        artifact("decision_hashes", "jsonl", EscalationLevel::Minimal, true, 4096),
        artifact("counter_snapshot", "json", EscalationLevel::Minimal, true, 2048),
        artifact("decision_log", "jsonl", EscalationLevel::Extended, true, 65536),
        artifact("boundary_snapshots", "jsonl", EscalationLevel::Extended, true, 32768),
        artifact("timing_trace", "jsonl", EscalationLevel::Extended, false, 131072),
        artifact("replay_inputs", "bin", EscalationLevel::Full, true, 524288),
        artifact("ir_snapshots", "json", EscalationLevel::Full, true, 262144),
        artifact("controller_state", "json", EscalationLevel::Full, false, 16384),
        artifact("execution_step_log", "jsonl", EscalationLevel::Forensic, true, 4_194_304),
        artifact("memory_dump", "bin", EscalationLevel::Forensic, false, 16_777_216),
    ];
    assert forall|i: int| 0 <= i < 10 implies is_standard_row(#[trigger] r@[i], i) by {
        if i == 0 {
        } else if i == 1 {
        } else if i == 2 {
        } else if i == 3 {
        } else if i == 4 {
        } else if i == 5 {
        } else if i == 6 {
        } else if i == 7 {
        } else if i == 8 {
        } else {
        }
    }
    r
}

// ---------------------------------------------------------------------------
// EscalationPolicy
// ---------------------------------------------------------------------------

/// The specs whose minimum level is at most `level`, in order.
pub open spec fn level_artifacts(specs: Seq<BundleArtifactSpec>, level: EscalationLevel) -> Seq<
    BundleArtifactSpec,
>
    decreases specs.len(),
{
    if specs.len() == 0 {
        Seq::empty()
    } else {
        let rest = level_artifacts(specs.drop_last(), level);
        if specs.last().min_level.depth_of() <= level.depth_of() {
            rest.push(specs.last())
        } else {
            rest
        }
    }
}

/// Sum of the estimated sizes of some specs.
pub open spec fn bytes_total(specs: Seq<BundleArtifactSpec>) -> nat
    decreases specs.len(),
{
    if specs.len() == 0 {
        0
    } else {
        bytes_total(specs.drop_last()) + (specs.last().estimated_bytes as nat)
    }
}

/// Labels of some specs, in order.
pub open spec fn artifact_labels(specs: Seq<BundleArtifactSpec>) -> Seq<Seq<char>> {
    specs.map_values(|a: BundleArtifactSpec| a.label@)
}

/// A prefix never sums to more than the whole.
proof fn lemma_bytes_total_prefix(s: Seq<BundleArtifactSpec>, i: int)
    requires
        0 <= i <= s.len(),
    ensures
        bytes_total(s.take(i)) <= bytes_total(s),
    decreases s.len(),
{
    if i < s.len() {
        assert(s.drop_last().take(i) =~= s.take(i));
        lemma_bytes_total_prefix(s.drop_last(), i);
    } else {
        assert(s.take(i) =~= s);
    }
}

/// Bytes of the category overrides hashed into the policy hash: each key's
/// UTF-8 bytes followed by the level depth as four little-endian bytes.
pub open spec fn overrides_bytes(s: Seq<(String, EscalationLevel)>) -> Seq<u8>
    decreases s.len(),
{
    if s.len() == 0 {
        Seq::empty()
    } else {
        overrides_bytes(s.drop_last()) + utf8(s.last().0@) + u32_le(s.last().1.depth_of())
    }
}

/// Policy governing when and how escalation happens.
#[derive(Debug, Clone, PartialEq, Eq)]
pub struct EscalationPolicy {
    pub schema_version: String,
    pub policy_id: String,
    /// Default escalation level (usually Minimal).
    pub default_level: EscalationLevel,
    /// Per-category overrides, keyed by category name.
    pub category_overrides: StrMap<EscalationLevel>,
    /// Per-severity minimum levels, keyed by severity name.
    pub severity_minimums: StrMap<EscalationLevel>,
    /// Maximum number of active escalations.
    pub max_active_escalations: u64,
    /// Cooldown in epochs between escalations for the same correlation ID.
    pub cooldown_epochs: u64,
    /// Whether the forensic level is allowed.
    pub allow_forensic: bool,
    /// Artifact specs to use.
    pub artifact_specs: Vec<BundleArtifactSpec>,
}

impl EscalationPolicy {
    /// The policy built by `default()`.
    pub open spec fn is_default(self) -> bool {
        &&& self.schema_version@ == ESCALATION_SCHEMA_VERSION@
        &&& self.policy_id@ == "default"@
        &&& self.default_level == EscalationLevel::Minimal
        &&& self.category_overrides.entries().len() == 0
        &&& self.severity_minimums.entries().len() == 0
        &&& self.max_active_escalations == 10
        &&& self.cooldown_epochs == 5
        &&& !self.allow_forensic
        &&& self.artifact_specs@.len() == 10
        &&& forall|i: int| 0 <= i < 10 ==> is_standard_row(#[trigger] self.artifact_specs@[i], i)
    }

    /// The level a category resolves to before the severity minimum.
    pub open spec fn category_level(self, c: TriggerCategory) -> EscalationLevel {
        match self.category_overrides.lookup(c.name()) {
            Some(l) => l,
            None => self.default_level,
        }
    }

    /// The deeper of the severity minimum and the category level, clamped to
    /// Full when forensic collection is not allowed.
    pub open spec fn resolve_spec(self, t: EscalationTrigger) -> EscalationLevel {
        let severity_min = t.severity.min_level();
        let category = self.category_level(t.category);
        let resolved = if severity_min.depth_of() > category.depth_of() {
            severity_min
        } else {
            category
        };
        if resolved == EscalationLevel::Forensic && !self.allow_forensic {
            EscalationLevel::Full
        } else {
            resolved
        }
    }

    /// Determine the escalation level for a given trigger.
    pub fn resolve_level(&self, trigger: &EscalationTrigger) -> (r: EscalationLevel)
        ensures
            r == self.resolve_spec(*trigger),
    {
        let severity_min = trigger.severity.minimum_escalation();
        let category_override = match self.category_overrides.get(trigger.category.as_str()) {
            Some(l) => *l,
            None => self.default_level,
        };
        let resolved = if severity_min.depth() > category_override.depth() {
            severity_min
        } else {
            category_override
        };
        if resolved == EscalationLevel::Forensic && !self.allow_forensic {
            EscalationLevel::Full
        } else {
            resolved
        }
    }

    /// The artifacts collected at `level`.
    pub open spec fn artifacts_at(self, level: EscalationLevel) -> Seq<BundleArtifactSpec> {
        level_artifacts(self.artifact_specs@, level)
    }

    /// Estimated bundle size at `level`.
    pub open spec fn bundle_size(self, level: EscalationLevel) -> nat {
        bytes_total(self.artifacts_at(level))
    }

    /// Get artifact specs for a given escalation level, in table order.
    pub fn artifacts_for_level(&self, level: EscalationLevel) -> (r: Vec<&BundleArtifactSpec>)
        ensures
            r@.map_values(|p: &BundleArtifactSpec| *p) == self.artifacts_at(level),
    {
        let specs = &self.artifact_specs;
        let mut out: Vec<&BundleArtifactSpec> = Vec::new();
        let mut i: usize = 0;
        while i < specs.len()
            invariant
                i <= specs@.len(),
                out@.map_values(|p: &BundleArtifactSpec| *p) == level_artifacts(
                    specs@.take(i as int),
                    level,
                ),
            decreases specs@.len() - i,
        {
            let ghost prev = out@;
            if specs[i].min_level.depth() <= level.depth() {
                out.push(&specs[i]);
            }
            proof {
                assert(specs@.take(i + 1).drop_last() =~= specs@.take(i as int));
                assert(out@.map_values(|p: &BundleArtifactSpec| *p) =~= level_artifacts(
                    specs@.take(i + 1),
                    level,
                ));
            }
            i = i + 1;
        }
        assert(specs@.take(specs@.len() as int) =~= specs@);
        out
    }

    /// Estimate total bundle size in bytes for a level.
    pub fn estimate_bundle_size(&self, level: EscalationLevel) -> (r: u64)
        requires
            self.bundle_size(level) <= u64::MAX,
        ensures
            r == self.bundle_size(level),
    {
        let refs = self.artifacts_for_level(level);
        let ghost all = refs@.map_values(|p: &BundleArtifactSpec| *p);
        let mut total: u64 = 0;
        let mut i: usize = 0;
        while i < refs.len()
            invariant
                i <= refs@.len(),
                all == refs@.map_values(|p: &BundleArtifactSpec| *p),
                bytes_total(all) <= u64::MAX,
                total == bytes_total(all.take(i as int)),
            decreases refs@.len() - i,
        {
            proof {
                assert(all.take(i + 1).drop_last() =~= all.take(i as int));
                lemma_bytes_total_prefix(all, i + 1);
            }
            total = total + refs[i].estimated_bytes;
            i = i + 1;
        }
        assert(all.take(i as int) =~= all);
        total
    }

    /// Bytes hashed for change detection.
    pub open spec fn hash_input(self) -> Seq<u8> {
        utf8(self.schema_version@) + utf8(self.policy_id@) + u32_le(self.default_level.depth_of())
            + u64_le(self.max_active_escalations) + u64_le(self.cooldown_epochs) + seq![
            if self.allow_forensic {
                1u8
            } else {
                0u8
            },
        ] + overrides_bytes(self.category_overrides.entries())
    }

    /// Content hash (lowercase hex of the SHA-256 digest) for change detection.
    pub fn content_hash(&self) -> (r: String)
        ensures
            r@ == hex_lower(sha256_digest(self.hash_input())),
    {
        let mut buf: Vec<u8> = Vec::new();
        push_str(&mut buf, self.schema_version.as_str());
        push_str(&mut buf, self.policy_id.as_str());
        push_u32_le(&mut buf, self.default_level.depth());
        push_u64_le(&mut buf, self.max_active_escalations);
        push_u64_le(&mut buf, self.cooldown_epochs);
        let flag: u8 = if self.allow_forensic { 1u8 } else { 0u8 };
        let ghost before = buf@;
        buf.push(flag);
        let ghost head = buf@;
        assert(head =~= before + seq![flag]);
        let items = self.category_overrides.as_slice();
        let mut i: usize = 0;
        while i < items.len()
            invariant
                i <= items@.len(),
                items@ == self.category_overrides.entries(),
                buf@ == head + overrides_bytes(items@.take(i as int)),
            decreases items@.len() - i,
        {
            push_str(&mut buf, items[i].0.as_str());
            push_u32_le(&mut buf, items[i].1.depth());
            proof {
                assert(items@.take(i + 1).drop_last() =~= items@.take(i as int));
                assert(buf@ =~= head + overrides_bytes(items@.take(i + 1)));
            }
            i = i + 1;
        }
        assert(items@.take(items@.len() as int) =~= items@);
        assert(buf@ =~= self.hash_input());
        sha256_bytes_hex(buf.as_slice())
    }
}

impl Default for EscalationPolicy {
    fn default() -> (r: Self)
        ensures
            r.is_default(),
    {
        EscalationPolicy {
            schema_version: owned(ESCALATION_SCHEMA_VERSION),
            policy_id: owned("default"),
            default_level: EscalationLevel::Minimal,
            category_overrides: StrMap::new(),
            severity_minimums: StrMap::new(),
            max_active_escalations: 10,
            cooldown_epochs: 5,
            allow_forensic: false,
            artifact_specs: standard_artifact_specs(),
        }
    }
}

// ---------------------------------------------------------------------------
// EscalationVerdict / EscalationDecision
// ---------------------------------------------------------------------------

/// Why an escalation was allowed or suppressed.
#[derive(Debug, PartialEq, Eq)]
pub enum EscalationVerdict {
    /// Escalation approved at the determined level.
    Approved { level: EscalationLevel },
    /// Suppressed: too many active escalations.
    SuppressedCapacity { active_count: u64, max_allowed: u64 },
    /// Suppressed: cooldown not expired for this correlation ID.
    SuppressedCooldown { correlation_id: String, epochs_remaining: u64 },
    /// Suppressed: the trigger does not call for more than minimal collection.
    SuppressedBelowThreshold,
}

impl Clone for EscalationVerdict {
    fn clone(&self) -> (r: Self)
        ensures
            r == *self,
    {
        match self {
            EscalationVerdict::Approved { level } => EscalationVerdict::Approved { level: *level },
            EscalationVerdict::SuppressedCapacity { active_count, max_allowed } => {
                EscalationVerdict::SuppressedCapacity {
                    active_count: *active_count,
                    max_allowed: *max_allowed,
                }
            },
            EscalationVerdict::SuppressedCooldown { correlation_id, epochs_remaining } => {
                EscalationVerdict::SuppressedCooldown {
                    correlation_id: correlation_id.clone(),
                    epochs_remaining: *epochs_remaining,
                }
            },
            EscalationVerdict::SuppressedBelowThreshold => {
                EscalationVerdict::SuppressedBelowThreshold
            },
        }
    }
}

impl EscalationVerdict {
    /// Display rendering of the verdict.
    pub open spec fn text(self) -> Seq<char> {
        match self {
            EscalationVerdict::Approved { level } => "approved("@ + level.name() + ")"@,
            EscalationVerdict::SuppressedCapacity { active_count, max_allowed } => "suppressed_capacity("@
                + decimal(active_count as nat) + "/"@ + decimal(max_allowed as nat) + ")"@,
            EscalationVerdict::SuppressedCooldown { correlation_id, .. } => "suppressed_cooldown("@
                + correlation_id@ + ")"@,
            EscalationVerdict::SuppressedBelowThreshold => "suppressed_below_threshold"@,
        }
    }

    /// Display rendering of the verdict.
    pub fn to_string(&self) -> (r: String)
        ensures
            r@ == self.text(),
    {
        match self {
            EscalationVerdict::Approved { level } => {
                let mut s = owned("approved(");
                s.append(level.as_str());
                s.append(")");
                s
            },
            EscalationVerdict::SuppressedCapacity { active_count, max_allowed } => {
                let mut s = owned("suppressed_capacity(");
                s.append(u64_to_decimal(*active_count).as_str());
                s.append("/");
                s.append(u64_to_decimal(*max_allowed).as_str());
                s.append(")");
                s
            },
            EscalationVerdict::SuppressedCooldown { correlation_id, .. } => {
                let mut s = owned("suppressed_cooldown(");
                s.append(correlation_id.as_str());
                s.append(")");
                s
            },
            EscalationVerdict::SuppressedBelowThreshold => owned("suppressed_below_threshold"),
        }
    }
}

/// Full escalation decision record.
#[derive(Debug, PartialEq, Eq)]
pub struct EscalationDecision {
    pub schema_version: String,
    pub trigger: EscalationTrigger,
    pub resolved_level: EscalationLevel,
    pub verdict: EscalationVerdict,
    /// Labels of the artifacts collected (empty unless approved).
    pub artifacts_included: Vec<String>,
    /// Estimated bundle size (zero unless approved).
    pub estimated_bundle_bytes: u64,
    /// Lowercase hex content hash of the decision.
    pub decision_hash: String,
}

/// Copy of a list of strings.
fn copy_strings(v: &Vec<String>) -> (r: Vec<String>)
    ensures
        r@ == v@,
{
    let mut out: Vec<String> = Vec::new();
    let mut i: usize = 0;
    while i < v.len()
        invariant
            i <= v@.len(),
            out@ == v@.take(i as int),
        decreases v@.len() - i,
    {
        out.push(v[i].clone());
        i = i + 1;
        assert(out@ =~= v@.take(i as int));
    }
    assert(v@.take(v@.len() as int) =~= v@);
    out
}

impl EscalationDecision {
    /// Two decisions with the same fields (triggers compared by `same_as`).
    pub open spec fn same_as(self, other: EscalationDecision) -> bool {
        &&& self.schema_version == other.schema_version
        &&& self.trigger.same_as(other.trigger)
        &&& self.resolved_level == other.resolved_level
        &&& self.verdict == other.verdict
        &&& self.artifacts_included@ == other.artifacts_included@
        &&& self.estimated_bundle_bytes == other.estimated_bundle_bytes
        &&& self.decision_hash == other.decision_hash
    }
}

impl Clone for EscalationDecision {
    fn clone(&self) -> (r: Self)
        ensures
            r.same_as(*self),
    {
        EscalationDecision {
            schema_version: self.schema_version.clone(),
            trigger: self.trigger.clone(),
            resolved_level: self.resolved_level,
            verdict: self.verdict.clone(),
            artifacts_included: copy_strings(&self.artifacts_included),
            estimated_bundle_bytes: self.estimated_bundle_bytes,
            decision_hash: self.decision_hash.clone(),
        }
    }
}

/// Text hashed into a decision hash: the trigger hash, the level name, the
/// verdict rendering, the number of artifacts and the estimated size, joined
/// by colons.
pub open spec fn decision_text(
    t: EscalationTrigger,
    level: EscalationLevel,
    verdict: EscalationVerdict,
    count: nat,
    bytes: nat,
) -> Seq<char> {
    text_digest_hex(t.hash_text()) + ":"@ + level.name() + ":"@ + verdict.text() + ":"@ + decimal(
        count,
    ) + ":"@ + decimal(bytes)
}

// ---------------------------------------------------------------------------
// EscalatorState
// ---------------------------------------------------------------------------

/// Tracked state of the escalator.
#[derive(Debug, Clone, PartialEq, Eq)]
pub struct EscalatorState {
    /// Number of currently active escalations.
    pub active_escalations: u64,
    /// Correlation id -> epoch at which its cooldown expires.
    pub cooldowns: StrMap<u64>,
    /// Total escalations ever approved.
    pub total_approved: u64,
    /// Total escalations suppressed.
    pub total_suppressed: u64,
    /// Approved escalations per category name.
    pub category_counts: StrMap<u64>,
    /// Approved escalations per level name.
    pub level_counts: StrMap<u64>,
    /// Current security epoch.
    pub current_epoch: SecurityEpoch,
}

impl EscalatorState {
    /// Fresh state at `epoch`: no escalations, cooldowns or counts.
    pub fn new(epoch: SecurityEpoch) -> (r: Self)
        ensures
            r.active_escalations == 0,
            r.total_approved == 0,
            r.total_suppressed == 0,
            r.cooldowns.entries().len() == 0,
            r.category_counts.entries().len() == 0,
            r.level_counts.entries().len() == 0,
            r.current_epoch == epoch,
    {
        EscalatorState {
            active_escalations: 0,
            cooldowns: StrMap::new(),
            total_approved: 0,
            total_suppressed: 0,
            category_counts: StrMap::new(),
            level_counts: StrMap::new(),
            current_epoch: epoch,
        }
    }
}

/// A count in a counter map can be incremented without overflow.
pub open spec fn can_bump(m: StrMap<u64>, k: Seq<char>) -> bool {
    m.lookup(k) matches Some(c) ==> c < u64::MAX
}

/// The counter map after incrementing the count under `k`.
pub open spec fn bumped(m: StrMap<u64>, k: Seq<char>, q: Seq<char>) -> Option<u64> {
    if q == k {
        Some(
            (match m.lookup(k) {
                Some(c) => c + 1,
                None => 1,
            }) as u64,
        )
    } else {
        m.lookup(q)
    }
}

// ---------------------------------------------------------------------------
// HindsightTraceEscalator
// ---------------------------------------------------------------------------

/// Evaluates triggers and decides escalation.
#[derive(Debug, Clone, PartialEq, Eq)]
pub struct HindsightTraceEscalator {
    pub policy: EscalationPolicy,
    pub state: EscalatorState,
    /// Decision log for audit.
    pub decision_log: Vec<EscalationDecision>,
    /// Maximum log entries.
    pub max_log_entries: usize,
}

impl HindsightTraceEscalator {
    /// The verdict `evaluate` reaches for a trigger in the current state:
    /// below threshold, then capacity, then the correlation cooldown.
    pub open spec fn verdict_for(self, t: EscalationTrigger) -> EscalationVerdict {
        let level = self.policy.resolve_spec(t);
        let current = self.state.current_epoch.0;
        if level == EscalationLevel::Minimal {
            EscalationVerdict::SuppressedBelowThreshold
        } else if self.state.active_escalations >= self.policy.max_active_escalations {
            EscalationVerdict::SuppressedCapacity {
                active_count: self.state.active_escalations,
                max_allowed: self.policy.max_active_escalations,
            }
        } else {
            match t.correlation_id {
                Some(c) => match self.state.cooldowns.lookup(c@) {
                    Some(e) => if current < e {
                        EscalationVerdict::SuppressedCooldown {
                            correlation_id: c,
                            epochs_remaining: (e - current) as u64,
                        }
                    } else {
                        EscalationVerdict::Approved { level }
                    },
                    None => EscalationVerdict::Approved { level },
                },
                None => EscalationVerdict::Approved { level },
            }
        }
    }

    /// Inputs on which `evaluate` runs without overflow or an empty-log removal.
    pub open spec fn can_evaluate(self, t: EscalationTrigger) -> bool {
        let level = self.policy.resolve_spec(t);
        let v = self.verdict_for(t);
        &&& !(self.decision_log@.len() == 0 && self.max_log_entries == 0)
        &&& (v is Approved ==> {
            &&& self.state.total_approved < u64::MAX
            &&& can_bump(self.state.category_counts, t.category.name())
            &&& can_bump(self.state.level_counts, level.name())
            &&& (t.correlation_id is Some ==> self.state.current_epoch.0 + self.policy.cooldown_epochs
                <= u64::MAX)
            &&& self.policy.bundle_size(level) <= u64::MAX
        })
        &&& (!(v is Approved) ==> self.state.total_suppressed < u64::MAX)
    }

    /// The decision log after recording one more decision.
    pub open spec fn log_kept(self) -> Seq<EscalationDecision> {
        if self.decision_log@.len() >= self.max_log_entries {
            self.decision_log@.drop_first()
        } else {
            self.decision_log@
        }
    }

    /// A fresh escalator with an empty log holding at most 500 entries.
    pub fn new(policy: EscalationPolicy, epoch: SecurityEpoch) -> (r: Self)
        ensures
            r.policy == policy,
            r.state.active_escalations == 0,
            r.state.total_approved == 0,
            r.state.total_suppressed == 0,
            r.state.cooldowns.entries().len() == 0,
            r.state.category_counts.entries().len() == 0,
            r.state.level_counts.entries().len() == 0,
            r.state.current_epoch == epoch,
            r.decision_log@.len() == 0,
            r.max_log_entries == 500,
    {
        HindsightTraceEscalator {
            policy,
            state: EscalatorState::new(epoch),
            decision_log: Vec::new(),
            max_log_entries: 500,
        }
    }

    /// Advance the epoch and expire the cooldowns that end at or before it.
    pub fn advance_epoch(&mut self, new_epoch: SecurityEpoch)
        ensures
            final(self).state.current_epoch == new_epoch,
            forall|q: Seq<char>|
                #[trigger] final(self).state.cooldowns.lookup(q) == match old(
                    self,
                ).state.cooldowns.lookup(q) {
                    Some(e) => if e > new_epoch.0 {
                        Some(e)
                    } else {
                        None
                    },
                    None => None,
                },
            final(self).state.active_escalations == old(self).state.active_escalations,
            final(self).state.total_approved == old(self).state.total_approved,
            final(self).state.total_suppressed == old(self).state.total_suppressed,
            final(self).state.category_counts == old(self).state.category_counts,
            final(self).state.level_counts == old(self).state.level_counts,
            final(self).policy == old(self).policy,
            final(self).decision_log@ == old(self).decision_log@,
            final(self).max_log_entries == old(self).max_log_entries,
    {
        self.state.current_epoch = new_epoch;
        let current = new_epoch.as_u64();
        self.state.cooldowns.retain_above(current);
    }

    /// Record a decision in the bounded log and return it.
    fn make_decision(
        &mut self,
        trigger: EscalationTrigger,
        resolved_level: EscalationLevel,
        verdict: EscalationVerdict,
    ) -> (r: EscalationDecision)
        requires
            !(old(self).decision_log@.len() == 0 && old(self).max_log_entries == 0),
            verdict is Approved ==> old(self).policy.bundle_size(resolved_level) <= u64::MAX,
        ensures
            final(self).policy == old(self).policy,
            final(self).state == old(self).state,
            final(self).max_log_entries == old(self).max_log_entries,
            final(self).decision_log@.drop_last() == old(self).log_kept(),
            final(self).decision_log@.len() == old(self).log_kept().len() + 1,
            final(self).decision_log@.last().same_as(r),
            r.schema_version@ == ESCALATION_SCHEMA_VERSION@,
            r.trigger == trigger,
            r.resolved_level == resolved_level,
            r.verdict == verdict,
            r.artifacts_included@.map_values(|s: String| s@) == if verdict is Approved {
                artifact_labels(old(self).policy.artifacts_at(resolved_level))
            } else {
                Seq::empty()
            },
            r.estimated_bundle_bytes == if verdict is Approved {
                old(self).policy.bundle_size(resolved_level)
            } else {
                0
            },
            r.decision_hash@ == text_digest_hex(
                decision_text(
                    trigger,
                    resolved_level,
                    verdict,
                    r.artifacts_included@.len(),
                    r.estimated_bundle_bytes as nat,
                ),
            ),
    {
        let approved = match &verdict {
            EscalationVerdict::Approved { .. } => true,
            _ => false,
        };
        let mut artifacts_included: Vec<String> = Vec::new();
        let mut estimated_bundle_bytes: u64 = 0;
        if approved {
            let refs = self.policy.artifacts_for_level(resolved_level);
            let ghost all = refs@.map_values(|p: &BundleArtifactSpec| *p);
            let mut i: usize = 0;
            while i < refs.len()
                invariant
                    i <= refs@.len(),
                    all == refs@.map_values(|p: &BundleArtifactSpec| *p),
                    artifacts_included@.map_values(|s: String| s@) == artifact_labels(
                        all.take(i as int),
                    ),
                decreases refs@.len() - i,
            {
                let ghost prev = artifacts_included@;
                assert(all.len() == refs@.len());
                assert(prev.map_values(|s: String| s@).len() == i);
                let label = refs[i].label.clone();
                assert(label@ == all[i as int].label@);
                artifacts_included.push(label);
                assert(all.take(i + 1) =~= all.take(i as int).push(all[i as int]));
                assert forall|j: int| 0 <= j < i implies (#[trigger] artifacts_included@[j])@
                    == all[j].label@ by {
                    assert(all.len() == refs@.len());
                    assert(prev.map_values(|s: String| s@).len() == i);
                    assert(artifacts_included@[j] == prev[j]);
                    assert(prev.map_values(|s: String| s@)[j] == prev[j]@);
                    assert(artifact_labels(all.take(i as int))[j] == all.take(i as int)[j].label@);
                    assert(prev.map_values(|s: String| s@)[j] == artifact_labels(
                        all.take(i as int),
                    )[j]);
                }
                assert(artifacts_included@[i as int] == label);
                i = i + 1;
                assert forall|j: int| 0 <= j < i implies artifacts_included@.map_values(
                    |s: String| s@,
                )[j] == artifact_labels(all.take(i as int))[j] by {
                    assert(artifacts_included@[j]@ == all[j].label@);
                    assert(all.take(i as int)[j] == all[j]);
                }
                assert(artifacts_included@.map_values(|s: String| s@) =~= artifact_labels(
                    all.take(i as int),
                ));
            }
            assert(all.take(i as int) =~= all);
            estimated_bundle_bytes = self.policy.estimate_bundle_size(resolved_level);
        }
        proof {
            if !approved {
                assert(artifacts_included@.map_values(|s: String| s@) =~= Seq::<Seq<char>>::empty());
            }
        }
        let mut text = trigger.content_hash();
        text.append(":");
        text.append(resolved_level.as_str());
        text.append(":");
        text.append(verdict.to_string().as_str());
        text.append(":");
        text.append(u64_to_decimal(artifacts_included.len() as u64).as_str());
        text.append(":");
        text.append(u64_to_decimal(estimated_bundle_bytes).as_str());
        let decision_hash = sha256_text_hex(text.as_str());
        let decision = EscalationDecision {
            schema_version: owned(ESCALATION_SCHEMA_VERSION),
            trigger,
            resolved_level,
            verdict,
            artifacts_included,
            estimated_bundle_bytes,
            decision_hash,
        };
        let ghost before = self.decision_log@;
        if self.decision_log.len() >= self.max_log_entries {
            self.decision_log.remove(0);
            assert(self.decision_log@ =~= before.drop_first());
        }
        self.decision_log.push(decision.clone());
        decision
    }

    /// Evaluate a trigger and decide whether to escalate.
    pub fn evaluate(&mut self, trigger: EscalationTrigger) -> (r: EscalationDecision)
        requires
            old(self).can_evaluate(trigger),
        ensures
            r.verdict == old(self).verdict_for(trigger),
            r.trigger == trigger,
            r.resolved_level == old(self).policy.resolve_spec(trigger),
            r.schema_version@ == ESCALATION_SCHEMA_VERSION@,
            r.artifacts_included@.map_values(|s: String| s@) == if r.verdict is Approved {
                artifact_labels(old(self).policy.artifacts_at(r.resolved_level))
            } else {
                Seq::empty()
            },
            r.estimated_bundle_bytes == if r.verdict is Approved {
                old(self).policy.bundle_size(r.resolved_level)
            } else {
                0
            },
            r.decision_hash@ == text_digest_hex(
                decision_text(
                    trigger,
                    r.resolved_level,
                    r.verdict,
                    r.artifacts_included@.len(),
                    r.estimated_bundle_bytes as nat,
                ),
            ),
            final(self).policy == old(self).policy,
            final(self).max_log_entries == old(self).max_log_entries,
            final(self).state.current_epoch == old(self).state.current_epoch,
            final(self).decision_log@.drop_last() == old(self).log_kept(),
            final(self).decision_log@.len() == old(self).log_kept().len() + 1,
            final(self).decision_log@.last().same_as(r),
            r.verdict is Approved ==> {
                &&& final(self).state.active_escalations == old(self).state.active_escalations + 1
                &&& final(self).state.total_approved == old(self).state.total_approved + 1
                &&& final(self).state.total_suppressed == old(self).state.total_suppressed
                &&& forall|q: Seq<char>|
                    #[trigger] final(self).state.category_counts.lookup(q) == bumped(
                        old(self).state.category_counts,
                        trigger.category.name(),
                        q,
                    )
                &&& forall|q: Seq<char>|
                    #[trigger] final(self).state.level_counts.lookup(q) == bumped(
                        old(self).state.level_counts,
                        r.resolved_level.name(),
                        q,
                    )
                &&& forall|q: Seq<char>|
                    #[trigger] final(self).state.cooldowns.lookup(q) == match trigger.correlation_id {
                        Some(c) => if q == c@ {
                            Some(
                                (old(self).state.current_epoch.0
                                    + old(self).policy.cooldown_epochs) as u64,
                            )
                        } else {
                            old(self).state.cooldowns.lookup(q)
                        },
                        None => old(self).state.cooldowns.lookup(q),
                    }
            },
            !(r.verdict is Approved) ==> {
                &&& final(self).state.active_escalations == old(self).state.active_escalations
                &&& final(self).state.total_approved == old(self).state.total_approved
                &&& final(self).state.total_suppressed == old(self).state.total_suppressed + 1
                &&& final(self).state.category_counts == old(self).state.category_counts
                &&& final(self).state.level_counts == old(self).state.level_counts
                &&& final(self).state.cooldowns == old(self).state.cooldowns
            },
    {
        let resolved_level = self.policy.resolve_level(&trigger);
        if resolved_level == EscalationLevel::Minimal {
            self.state.total_suppressed = self.state.total_suppressed + 1;
            return self.make_decision(
                trigger,
                resolved_level,
                EscalationVerdict::SuppressedBelowThreshold,
            );
        }
        if self.state.active_escalations >= self.policy.max_active_escalations {
            self.state.total_suppressed = self.state.total_suppressed + 1;
            let verdict = EscalationVerdict::SuppressedCapacity {
                active_count: self.state.active_escalations,
                max_allowed: self.policy.max_active_escalations,
            };
            return self.make_decision(trigger, resolved_level, verdict);
        }
        match &trigger.correlation_id {
            Some(correlation_id) => {
                match self.state.cooldowns.get(correlation_id.as_str()) {
                    Some(expires) => {
                        let expires: u64 = *expires;
                        let current = self.state.current_epoch.as_u64();
                        if current < expires {
                            self.state.total_suppressed = self.state.total_suppressed + 1;
                            let verdict = EscalationVerdict::SuppressedCooldown {
                                correlation_id: correlation_id.clone(),
                                epochs_remaining: expires - current,
                            };
                            return self.make_decision(trigger, resolved_level, verdict);
                        }
                    },
                    None => {},
                }
            },
            None => {},
        }
        self.state.active_escalations = self.state.active_escalations + 1;
        self.state.total_approved = self.state.total_approved + 1;
        self.state.category_counts.increment(trigger.category.to_string());
        self.state.level_counts.increment(resolved_level.to_string());
        match &trigger.correlation_id {
            Some(correlation_id) => {
                let expires = self.state.current_epoch.as_u64() + self.policy.cooldown_epochs;
                self.state.cooldowns.insert(correlation_id.clone(), expires);
            },
            None => {},
        }
        self.make_decision(trigger, resolved_level, EscalationVerdict::Approved { level: resolved_level })
    }

    /// Mark an escalation as completed (frees capacity; never below zero).
    pub fn complete_escalation(&mut self)
        ensures
            final(self).state.active_escalations == if old(self).state.active_escalations > 0 {
                (old(self).state.active_escalations - 1) as u64
            } else {
                0
            },
            final(self).state.total_approved == old(self).state.total_approved,
            final(self).state.total_suppressed == old(self).state.total_suppressed,
            final(self).state.cooldowns == old(self).state.cooldowns,
            final(self).state.category_counts == old(self).state.category_counts,
            final(self).state.level_counts == old(self).state.level_counts,
            final(self).state.current_epoch == old(self).state.current_epoch,
            final(self).policy == old(self).policy,
            final(self).decision_log@ == old(self).decision_log@,
            final(self).max_log_entries == old(self).max_log_entries,
    {
        if self.state.active_escalations > 0 {
            self.state.active_escalations = self.state.active_escalations - 1;
        }
    }

    /// The current state summary.
    pub fn summary(&self) -> (r: EscalatorSummary)
        ensures
            r.schema_version@ == ESCALATION_SCHEMA_VERSION@,
            r.active_escalations == self.state.active_escalations,
            r.total_approved == self.state.total_approved,
            r.total_suppressed == self.state.total_suppressed,
            r.category_counts.entries() == self.state.category_counts.entries(),
            r.level_counts.entries() == self.state.level_counts.entries(),
            r.cooldown_count == self.state.cooldowns.entries().len(),
            r.policy_hash@ == hex_lower(sha256_digest(self.policy.hash_input())),
            r.epoch == self.state.current_epoch,
    {
        EscalatorSummary {
            schema_version: owned(ESCALATION_SCHEMA_VERSION),
            active_escalations: self.state.active_escalations,
            total_approved: self.state.total_approved,
            total_suppressed: self.state.total_suppressed,
            category_counts: self.state.category_counts.duplicate(),
            level_counts: self.state.level_counts.duplicate(),
            cooldown_count: self.state.cooldowns.len() as u64,
            policy_hash: self.policy.content_hash(),
            epoch: self.state.current_epoch,
        }
    }
}

/// Summary for operator dashboards.
#[derive(Debug, Clone, PartialEq, Eq)]
pub struct EscalatorSummary {
    pub schema_version: String,
    pub active_escalations: u64,
    pub total_approved: u64,
    pub total_suppressed: u64,
    pub category_counts: StrMap<u64>,
    pub level_counts: StrMap<u64>,
    pub cooldown_count: u64,
    pub policy_hash: String,
    pub epoch: SecurityEpoch,
}

// ---------------------------------------------------------------------------
// Support bundle manifest
// ---------------------------------------------------------------------------

/// One artifact within a support bundle.
#[derive(Debug, Clone, PartialEq, Eq)]
pub struct SupportBundleArtifact {
    pub label: String,
    pub format: String,
    pub path: String,
    pub bytes: u64,
    pub content_hash: String,
}

/// Sum of the sizes of some bundle artifacts.
pub open spec fn artifact_bytes(a: Seq<SupportBundleArtifact>) -> nat
    decreases a.len(),
{
    if a.len() == 0 {
        0
    } else {
        artifact_bytes(a.drop_last()) + (a.last().bytes as nat)
    }
}

proof fn lemma_artifact_bytes_prefix(s: Seq<SupportBundleArtifact>, i: int)
    requires
        0 <= i <= s.len(),
    ensures
        artifact_bytes(s.take(i)) <= artifact_bytes(s),
    decreases s.len(),
{
    if i < s.len() {
        assert(s.drop_last().take(i) =~= s.take(i));
        lemma_artifact_bytes_prefix(s.drop_last(), i);
    } else {
        assert(s.take(i) =~= s);
    }
}

/// Manifest for a completed support bundle.
#[derive(Debug, Clone, PartialEq, Eq)]
pub struct SupportBundleManifest {
    pub schema_version: String,
    pub bead_id: String,
    pub bundle_id: String,
    pub trigger_id: String,
    pub escalation_level: EscalationLevel,
    pub artifacts: Vec<SupportBundleArtifact>,
    pub total_bytes: u64,
    pub epoch: SecurityEpoch,
    pub manifest_hash: String,
}

/// Text hashed into a manifest hash: `schema:bundle:trigger:level:total_bytes`.
pub open spec fn manifest_text(
    bundle_id: Seq<char>,
    trigger_id: Seq<char>,
    level: EscalationLevel,
    total: nat,
) -> Seq<char> {
    ESCALATION_SCHEMA_VERSION@ + ":"@ + bundle_id + ":"@ + trigger_id + ":"@ + level.name() + ":"@
        + decimal(total)
}

impl SupportBundleManifest {
    /// Create a manifest from an escalation decision and collected artifacts.
    pub fn from_decision(
        decision: &EscalationDecision,
        bundle_id: &str,
        artifacts: Vec<SupportBundleArtifact>,
    ) -> (r: Self)
        requires
            artifact_bytes(artifacts@) <= u64::MAX,
        ensures
            r.schema_version@ == ESCALATION_SCHEMA_VERSION@,
            r.bead_id@ == ESCALATION_BEAD_ID@,
            r.bundle_id@ == bundle_id@,
            r.trigger_id == decision.trigger.trigger_id,
            r.escalation_level == decision.resolved_level,
            r.artifacts@ == artifacts@,
            r.total_bytes == artifact_bytes(artifacts@),
            r.epoch == decision.trigger.epoch,
            r.manifest_hash@ == text_digest_hex(
                manifest_text(
                    bundle_id@,
                    decision.trigger.trigger_id@,
                    decision.resolved_level,
                    artifact_bytes(artifacts@),
                ),
            ),
    {
        let mut total: u64 = 0;
        let mut i: usize = 0;
        while i < artifacts.len()
            invariant
                i <= artifacts@.len(),
                artifact_bytes(artifacts@) <= u64::MAX,
                total == artifact_bytes(artifacts@.take(i as int)),
            decreases artifacts@.len() - i,
        {
            proof {
                assert(artifacts@.take(i + 1).drop_last() =~= artifacts@.take(i as int));
                lemma_artifact_bytes_prefix(artifacts@, i + 1);
            }
            total = total + artifacts[i].bytes;
            i = i + 1;
        }
        assert(artifacts@.take(i as int) =~= artifacts@);
        let mut text = owned(ESCALATION_SCHEMA_VERSION);
        text.append(":");
        text.append(bundle_id);
        text.append(":");
        text.append(decision.trigger.trigger_id.as_str());
        text.append(":");
        text.append(decision.resolved_level.as_str());
        text.append(":");
        text.append(u64_to_decimal(total).as_str());
        SupportBundleManifest {
            schema_version: owned(ESCALATION_SCHEMA_VERSION),
            bead_id: owned(ESCALATION_BEAD_ID),
            bundle_id: owned(bundle_id),
            trigger_id: decision.trigger.trigger_id.clone(),
            escalation_level: decision.resolved_level,
            artifacts,
            total_bytes: total,
            epoch: decision.trigger.epoch,
            manifest_hash: sha256_text_hex(text.as_str()),
        }
    }
}

// ---------------------------------------------------------------------------
// Laws
// ---------------------------------------------------------------------------

/// A resolved level never goes below the severity minimum, except that
/// Forensic is clamped to Full; and it is never Forensic unless the policy
/// allows forensic collection.
pub proof fn law_resolved_level_respects_severity(policy: EscalationPolicy, t: EscalationTrigger)
    ensures
        policy.resolve_spec(t).depth_of() >= t.severity.min_level().depth_of() || (
        t.severity.min_level() == EscalationLevel::Forensic && !policy.allow_forensic
            && policy.resolve_spec(t) == EscalationLevel::Full),
        policy.resolve_spec(t) == EscalationLevel::Forensic ==> policy.allow_forensic,
        policy.resolve_spec(t) != EscalationLevel::Minimal,
{
}

proof fn lemma_level_artifacts_monotone(
    s: Seq<BundleArtifactSpec>,
    low: EscalationLevel,
    high: EscalationLevel,
)
    requires
        low.depth_of() <= high.depth_of(),
    ensures
        bytes_total(level_artifacts(s, low)) <= bytes_total(level_artifacts(s, high)),
        level_artifacts(s, low).len() <= level_artifacts(s, high).len(),
    decreases s.len(),
{
    if s.len() > 0 {
        lemma_level_artifacts_monotone(s.drop_last(), low, high);
        let rl = level_artifacts(s.drop_last(), low);
        let rh = level_artifacts(s.drop_last(), high);
        if s.last().min_level.depth_of() <= low.depth_of() {
            assert(rl.push(s.last()).drop_last() =~= rl);
            assert(rh.push(s.last()).drop_last() =~= rh);
        } else if s.last().min_level.depth_of() <= high.depth_of() {
            assert(rh.push(s.last()).drop_last() =~= rh);
        }
    }
}

/// A deeper escalation level collects at least as many artifacts and at
/// least as many estimated bytes.
pub proof fn law_bundle_grows_with_level(
    policy: EscalationPolicy,
    low: EscalationLevel,
    high: EscalationLevel,
)
    requires
        low.depth_of() <= high.depth_of(),
    ensures
        policy.bundle_size(low) <= policy.bundle_size(high),
        policy.artifacts_at(low).len() <= policy.artifacts_at(high).len(),
{
    lemma_level_artifacts_monotone(policy.artifact_specs@, low, high);
}

/// An escalation is only approved while fewer than the maximum number of
/// escalations are active, so approving never pushes the active count past
/// the policy maximum.
pub proof fn law_approval_respects_capacity(e: HindsightTraceEscalator, t: EscalationTrigger)
    ensures
        e.verdict_for(t) is Approved ==> e.state.active_escalations + 1
            <= e.policy.max_active_escalations,
{
}

/// A correlation id whose cooldown has not expired cannot be escalated
/// again: once the trigger clears the threshold and capacity checks, it is
/// suppressed with the remaining epochs.
pub proof fn law_cooldown_blocks_reescalation(
    e: HindsightTraceEscalator,
    t: EscalationTrigger,
    expires: u64,
)
    requires
        t.correlation_id is Some,
        e.state.cooldowns.lookup(t.correlation_id->Some_0@) == Some(expires),
        e.state.current_epoch.0 < expires,
        e.policy.resolve_spec(t) != EscalationLevel::Minimal,
        e.state.active_escalations < e.policy.max_active_escalations,
    ensures
        e.verdict_for(t) == (EscalationVerdict::SuppressedCooldown {
            correlation_id: t.correlation_id->Some_0,
            epochs_remaining: (expires - e.state.current_epoch.0) as u64,
        }),
{
}

/// With a positive bound and a log within it, recording one more decision
/// keeps the log within the bound.
pub proof fn law_decision_log_bounded(e: HindsightTraceEscalator)
    requires
        e.max_log_entries > 0,
        e.decision_log@.len() <= e.max_log_entries,
    ensures
        e.log_kept().len() + 1 <= e.max_log_entries,
{
}

} // verus!
