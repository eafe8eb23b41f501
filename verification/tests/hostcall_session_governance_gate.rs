use std::collections::BTreeSet;
use franken_engine::foundation::{ContentHash, SecurityEpoch};
use franken_engine::hostcall_session_governance_gate::{BEAD_ID, COMPONENT, ConformanceLevel, ConformanceVector, DEFAULT_MAX_DEGRADED_SEVERITY, DEFAULT_MAX_OBSERVABILITY_OVERHEAD, DEFAULT_MAX_REPLAY_DROP_RATE, DEFAULT_MIN_CONFORMANCE, DEFAULT_MIN_OPERATIONS_TESTED, DecisionReceipt, DegradedModeReason, DegradedModeRecord, GateConfig, GateResult, GateSummary, GateVerdict, ObservabilityDelta, POLICY_ID, ReplayDropKind, ReplayDropRecord, SCHEMA_VERSION, evaluate, evaluate_conformance, evaluate_degraded_mode, evaluate_replay_drops};



fn epoch() -> SecurityEpoch {
    SecurityEpoch::from_raw(100)
}

fn good_conformance() -> ConformanceVector {
    ConformanceVector::new("sess-1", "v1.0", 100, 100, Vec::new(), epoch())
}

fn partial_conformance() -> ConformanceVector {
    ConformanceVector::new(
        "sess-2",
        "v1.0",
        100,
        95,
        vec!["minor failure".into()],
        epoch(),
    )
}

fn bad_conformance() -> ConformanceVector {
    ConformanceVector::new(
        "sess-3",
        "v1.0",
        100,
        30,
        vec!["critical failure".into()],
        epoch(),
    )
}

fn low_test_conformance() -> ConformanceVector {
    ConformanceVector::new("sess-4", "v1.0", 3, 3, Vec::new(), epoch())
}

fn good_drop_record() -> ReplayDropRecord {
    ReplayDropRecord::new("sess-1", ReplayDropKind::Timeout, 1, 1000, epoch())
}

fn bad_drop_record() -> ReplayDropRecord {
    ReplayDropRecord::new("sess-1", ReplayDropKind::BufferOverflow, 200, 1000, epoch())
}

fn mild_degraded_record() -> DegradedModeRecord {
    DegradedModeRecord::new(
        "sess-1",
        DegradedModeReason::HighLatency,
        300_000,
        2,
        vec!["throttle applied".into()],
        epoch(),
    )
}

fn severe_degraded_record() -> DegradedModeRecord {
    DegradedModeRecord::new(
        "sess-1",
        DegradedModeReason::ResourceExhaustion,
        900_000,
        5,
        Vec::new(),
        epoch(),
    )
}

fn security_degraded_record() -> DegradedModeRecord {
    DegradedModeRecord::new(
        "sess-1",
        DegradedModeReason::SecurityViolation,
        500_000,
        1,
        vec!["session quarantined".into()],
        epoch(),
    )
}

fn default_config() -> GateConfig {
    GateConfig::default()
}

// --- Constants ---

#[test]
fn hostcall_session_governance_gate_schema_version_format() {
    assert!(SCHEMA_VERSION.starts_with("franken-engine."));
}

#[test]
fn hostcall_session_governance_gate_component_name() {
    assert_eq!(COMPONENT, "hostcall_session_governance_gate");
}

#[test]
fn hostcall_session_governance_gate_bead_id_format() {
    assert!(BEAD_ID.starts_with("bd-"));
    assert_eq!(BEAD_ID, "bd-1lsy.6.5.3");
}

#[test]
fn hostcall_session_governance_gate_policy_id_format() {
    assert!(POLICY_ID.starts_with("RGC-"));
    assert_eq!(POLICY_ID, "RGC-505C");
}

#[test]
fn hostcall_session_governance_gate_default_thresholds_valid() {
    const { assert!(DEFAULT_MIN_CONFORMANCE > 0 && DEFAULT_MIN_CONFORMANCE <= 1_000_000) };
    const { assert!(DEFAULT_MAX_REPLAY_DROP_RATE > 0 && DEFAULT_MAX_REPLAY_DROP_RATE <= 1_000_000) };
    const {
        assert!(DEFAULT_MAX_DEGRADED_SEVERITY > 0 && DEFAULT_MAX_DEGRADED_SEVERITY <= 1_000_000)
    };
    const {
        assert!(
            DEFAULT_MAX_OBSERVABILITY_OVERHEAD > 0
                && DEFAULT_MAX_OBSERVABILITY_OVERHEAD <= 1_000_000
        )
    };
    const { assert!(DEFAULT_MIN_OPERATIONS_TESTED > 0) };
}

// --- ConformanceLevel ---

#[test]
fn conformance_level_all_length() {
    assert_eq!(ConformanceLevel::ALL.len(), 4);
}

#[test]
fn conformance_level_names_unique() {
    let names: std::collections::BTreeSet<&str> =
        ConformanceLevel::ALL.iter().map(|c| c.as_str()).collect();
    assert_eq!(names.len(), ConformanceLevel::ALL.len());
}

#[test]
fn conformance_level_display() {
    for c in ConformanceLevel::ALL.iter() {
        assert_eq!(c.to_string(), c.as_str());
    }
}

#[test]
fn conformance_level_acceptable() {
    assert!(ConformanceLevel::Full.is_acceptable());
    assert!(ConformanceLevel::Partial.is_acceptable());
    assert!(!ConformanceLevel::Degraded.is_acceptable());
    assert!(!ConformanceLevel::NonConformant.is_acceptable());
}


// --- DegradedModeReason ---

#[test]
fn degraded_reason_all_length() {
    assert_eq!(DegradedModeReason::ALL.len(), 5);
}

#[test]
fn degraded_reason_security_critical() {
    assert!(DegradedModeReason::SecurityViolation.is_security_critical());
    assert!(!DegradedModeReason::HighLatency.is_security_critical());
    assert!(!DegradedModeReason::ResourceExhaustion.is_security_critical());
}


// --- GateVerdict ---

#[test]
fn gate_verdict_all_length() {
    assert_eq!(GateVerdict::ALL.len(), 4);
}

#[test]
fn gate_verdict_allows_session() {
    assert!(GateVerdict::Pass.allows_session());
    assert!(GateVerdict::ConditionalPass.allows_session());
    assert!(!GateVerdict::Fail.allows_session());
    assert!(GateVerdict::DegradedMode.allows_session());
}

#[test]
fn gate_verdict_is_clean() {
    assert!(GateVerdict::Pass.is_clean());
    assert!(!GateVerdict::ConditionalPass.is_clean());
    assert!(!GateVerdict::Fail.is_clean());
}


// --- ReplayDropKind ---

#[test]
fn replay_drop_kind_all_length() {
    assert_eq!(ReplayDropKind::ALL.len(), 5);
}

#[test]
fn replay_drop_kind_display() {
    for k in ReplayDropKind::ALL.iter() {
        assert_eq!(k.to_string(), k.as_str());
    }
}

// --- ConformanceVector ---

#[test]
fn conformance_vector_fraction_computed() {
    let v = ConformanceVector::new("s1", "v1", 200, 180, Vec::new(), epoch());
    assert_eq!(v.conformance_fraction, 900_000);
}

#[test]
fn conformance_vector_full_conformance() {
    let v = good_conformance();
    assert!(v.is_fully_conformant());
    assert_eq!(v.conformance_fraction, 1_000_000);
}

#[test]
fn conformance_vector_zero_tested() {
    let v = ConformanceVector::new("s1", "v1", 0, 0, Vec::new(), epoch());
    assert_eq!(v.conformance_fraction, 0);
    assert!(!v.is_fully_conformant());
}

#[test]
fn conformance_vector_display() {
    let v = good_conformance();
    let s = v.to_string();
    assert!(s.contains("conformance[sess-1]"));
    assert!(s.contains("100/100"));
}


// --- ReplayDropRecord ---

#[test]
fn replay_drop_rate_computed() {
    let r = ReplayDropRecord::new("s1", ReplayDropKind::Timeout, 5, 100, epoch());
    assert_eq!(r.drop_rate, 50_000);
}

#[test]
fn replay_drop_zero_total() {
    let r = ReplayDropRecord::new("s1", ReplayDropKind::Timeout, 0, 0, epoch());
    assert_eq!(r.drop_rate, 0);
}

#[test]
fn replay_drop_display() {
    let r = good_drop_record();
    let s = r.to_string();
    assert!(s.contains("replay-drop"));
    assert!(s.contains("timeout"));
}


// --- DegradedModeRecord ---

#[test]
fn degraded_record_security_critical() {
    let r = security_degraded_record();
    assert!(r.is_security_critical());
}

#[test]
fn degraded_record_not_security_critical() {
    let r = mild_degraded_record();
    assert!(!r.is_security_critical());
}

#[test]
fn degraded_record_display() {
    let r = severe_degraded_record();
    let s = r.to_string();
    assert!(s.contains("degraded"));
    assert!(s.contains("resource_exhaustion"));
}


// --- ObservabilityDelta ---

#[test]
fn observability_delta_overhead_computed() {
    let d = ObservabilityDelta::new(900_000, 1_000_000);
    assert_eq!(d.overhead_fraction, 100_000);
    assert!(d.acceptable);
}

#[test]
fn observability_delta_high_overhead() {
    let d = ObservabilityDelta::new(500_000, 1_000_000);
    assert_eq!(d.overhead_fraction, 500_000);
    assert!(!d.acceptable);
}

#[test]
fn observability_delta_zero_uninstrumented() {
    let d = ObservabilityDelta::new(100, 0);
    assert_eq!(d.overhead_fraction, 0);
}

#[test]
fn observability_delta_display() {
    let d = ObservabilityDelta::new(900_000, 1_000_000);
    let s = d.to_string();
    assert!(s.contains("observability"));
}

#[test]
fn observability_delta_with_custom_threshold() {
    let d = ObservabilityDelta::with_acceptable(800_000, 1_000_000, 250_000);
    assert_eq!(d.overhead_fraction, 200_000);
    assert!(d.acceptable);
}


// --- GateConfig ---

#[test]
fn gate_config_default() {
    let c = GateConfig::default();
    assert_eq!(c.min_conformance_fraction, DEFAULT_MIN_CONFORMANCE);
    assert_eq!(c.max_replay_drop_rate, DEFAULT_MAX_REPLAY_DROP_RATE);
}

#[test]
fn gate_config_strict_tighter_than_default() {
    let s = GateConfig::strict();
    let d = GateConfig::default();
    assert!(s.min_conformance_fraction >= d.min_conformance_fraction);
    assert!(s.max_replay_drop_rate <= d.max_replay_drop_rate);
}

#[test]
fn gate_config_permissive_looser_than_default() {
    let p = GateConfig::permissive();
    let d = GateConfig::default();
    assert!(p.min_conformance_fraction <= d.min_conformance_fraction);
    assert!(p.max_replay_drop_rate >= d.max_replay_drop_rate);
}


// --- evaluate_conformance ---

#[test]
fn eval_conformance_full() {
    let level = evaluate_conformance(&good_conformance(), &default_config());
    assert_eq!(level, ConformanceLevel::Full);
}

#[test]
fn eval_conformance_partial() {
    let level = evaluate_conformance(&partial_conformance(), &default_config());
    assert_eq!(level, ConformanceLevel::Partial);
}

#[test]
fn eval_conformance_non_conformant_low_fraction() {
    let level = evaluate_conformance(&bad_conformance(), &default_config());
    assert_eq!(level, ConformanceLevel::NonConformant);
}

#[test]
fn eval_conformance_non_conformant_too_few_tests() {
    let level = evaluate_conformance(&low_test_conformance(), &default_config());
    assert_eq!(level, ConformanceLevel::NonConformant);
}

#[test]
fn eval_conformance_degraded_boundary() {
    // 60% conformance is above half of 90% threshold (45%) but below 90%.
    let v = ConformanceVector::new("s1", "v1", 100, 60, Vec::new(), epoch());
    let level = evaluate_conformance(&v, &default_config());
    assert_eq!(level, ConformanceLevel::Degraded);
}

// --- evaluate_replay_drops ---

#[test]
fn eval_drops_empty() {
    assert!(evaluate_replay_drops(&[], &default_config()));
}

#[test]
fn eval_drops_acceptable() {
    assert!(evaluate_replay_drops(
        &[good_drop_record()],
        &default_config()
    ));
}

#[test]
fn eval_drops_unacceptable() {
    assert!(!evaluate_replay_drops(
        &[bad_drop_record()],
        &default_config()
    ));
}

// --- evaluate_degraded_mode ---

#[test]
fn eval_degraded_empty() {
    let reasons = evaluate_degraded_mode(&[], &default_config());
    assert!(reasons.is_empty());
}

#[test]
fn eval_degraded_mild_under_threshold() {
    let reasons = evaluate_degraded_mode(&[mild_degraded_record()], &default_config());
    assert!(reasons.is_empty());
}

#[test]
fn eval_degraded_severe_over_threshold() {
    let reasons = evaluate_degraded_mode(&[severe_degraded_record()], &default_config());
    assert_eq!(reasons.len(), 1);
    assert_eq!(reasons[0], DegradedModeReason::ResourceExhaustion);
}

#[test]
fn eval_degraded_security_always_flagged() {
    let reasons = evaluate_degraded_mode(&[security_degraded_record()], &default_config());
    assert_eq!(reasons.len(), 1);
    assert_eq!(reasons[0], DegradedModeReason::SecurityViolation);
}

#[test]
fn eval_degraded_deduplicates_reasons() {
    let records = vec![
        severe_degraded_record(),
        DegradedModeRecord::new(
            "sess-2",
            DegradedModeReason::ResourceExhaustion,
            800_000,
            3,
            Vec::new(),
            epoch(),
        ),
    ];
    let reasons = evaluate_degraded_mode(&records, &default_config());
    assert_eq!(reasons.len(), 1);
}

// --- evaluate (full) ---

#[test]
fn eval_full_clean_pass() {
    let result = evaluate(&good_conformance(), &[], &[], None, &default_config());
    assert_eq!(result.verdict, GateVerdict::Pass);
    assert!(result.is_passing());
    assert!(result.blocking_reasons.is_empty());
}

#[test]
fn eval_full_conditional_pass() {
    let result = evaluate(
        &partial_conformance(),
        &[good_drop_record()],
        &[],
        None,
        &default_config(),
    );
    assert_eq!(result.verdict, GateVerdict::ConditionalPass);
    assert!(result.is_passing());
}

#[test]
fn eval_full_fail_bad_conformance() {
    let result = evaluate(&bad_conformance(), &[], &[], None, &default_config());
    assert_eq!(result.verdict, GateVerdict::Fail);
    assert!(!result.is_passing());
}

#[test]
fn eval_full_fail_bad_drops() {
    let result = evaluate(
        &good_conformance(),
        &[bad_drop_record()],
        &[],
        None,
        &default_config(),
    );
    assert_eq!(result.verdict, GateVerdict::Fail);
}

#[test]
fn eval_full_degraded_mode() {
    let result = evaluate(
        &good_conformance(),
        &[],
        &[severe_degraded_record()],
        None,
        &default_config(),
    );
    assert_eq!(result.verdict, GateVerdict::DegradedMode);
    assert!(result.is_passing());
    assert!(!result.degraded_reasons.is_empty());
}

#[test]
fn eval_full_fail_security_violation() {
    let result = evaluate(
        &good_conformance(),
        &[],
        &[security_degraded_record()],
        None,
        &default_config(),
    );
    assert_eq!(result.verdict, GateVerdict::Fail);
    assert!(!result.is_passing());
}

#[test]
fn eval_full_observability_overhead_recommendation() {
    let delta = ObservabilityDelta::new(500_000, 1_000_000);
    let result = evaluate(
        &good_conformance(),
        &[],
        &[],
        Some(&delta),
        &default_config(),
    );
    // Overhead alone produces a recommendation, not a block.
    assert_eq!(result.verdict, GateVerdict::ConditionalPass);
    assert!(result.has_recommendations());
}

#[test]
fn eval_full_receipt_hash_deterministic() {
    let r1 = evaluate(&good_conformance(), &[], &[], None, &default_config());
    let r2 = evaluate(&good_conformance(), &[], &[], None, &default_config());
    assert_eq!(r1.receipt_hash, r2.receipt_hash);
}

#[test]
fn eval_full_receipt_hash_changes_with_input() {
    let r1 = evaluate(&good_conformance(), &[], &[], None, &default_config());
    let r2 = evaluate(&partial_conformance(), &[], &[], None, &default_config());
    assert_ne!(r1.receipt_hash, r2.receipt_hash);
}

// --- GateResult ---

#[test]
fn gate_result_display() {
    let r = evaluate(&good_conformance(), &[], &[], None, &default_config());
    let s = r.to_string();
    assert!(s.contains("gate[pass]"));
}


// --- DecisionReceipt ---

#[test]
fn decision_receipt_new() {
    let evidence_hash = ContentHash::compute(b"evidence");
    let receipt = DecisionReceipt::new(epoch(), GateVerdict::Pass, evidence_hash);
    assert_eq!(receipt.component, COMPONENT);
    assert_eq!(receipt.verdict, GateVerdict::Pass);
}

#[test]
fn decision_receipt_hash_deterministic() {
    let eh = ContentHash::compute(b"test");
    let r1 = DecisionReceipt::new(epoch(), GateVerdict::Pass, eh);
    let r2 = DecisionReceipt::new(epoch(), GateVerdict::Pass, eh);
    assert_eq!(r1.receipt_hash, r2.receipt_hash);
}

#[test]
fn decision_receipt_display() {
    let eh = ContentHash::compute(b"test");
    let r = DecisionReceipt::new(epoch(), GateVerdict::Fail, eh);
    let s = r.to_string();
    assert!(s.contains("receipt"));
    assert!(s.contains("fail"));
}


// --- GateSummary ---

#[test]
fn gate_summary_empty() {
    let s = GateSummary::from_results(&[]);
    assert_eq!(s.total, 0);
    assert_eq!(s.pass_rate, 0);
    assert!(!s.all_passing());
}

#[test]
fn gate_summary_all_pass() {
    let results = vec![
        evaluate(&good_conformance(), &[], &[], None, &default_config()),
        evaluate(&good_conformance(), &[], &[], None, &default_config()),
    ];
    let s = GateSummary::from_results(&results);
    assert_eq!(s.total, 2);
    assert_eq!(s.passed, 2);
    assert_eq!(s.pass_rate, 1_000_000);
    assert!(s.all_passing());
}

#[test]
fn gate_summary_mixed() {
    let results = vec![
        evaluate(&good_conformance(), &[], &[], None, &default_config()),
        evaluate(&bad_conformance(), &[], &[], None, &default_config()),
    ];
    let s = GateSummary::from_results(&results);
    assert_eq!(s.total, 2);
    assert_eq!(s.passed, 1);
    assert_eq!(s.failed, 1);
    assert_eq!(s.pass_rate, 500_000);
    assert!(!s.all_passing());
}

#[test]
fn gate_summary_display() {
    let s = GateSummary::from_results(&[]);
    let text = s.to_string();
    assert!(text.contains("summary"));
}
