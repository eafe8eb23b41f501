use std::collections::BTreeSet;
use franken_engine::foundation::{SecurityEpoch};
use franken_engine::hostcall_conformance_governance::{BEAD_ID, COMPONENT, ConformanceAxis, ConformanceResult, DEFAULT_MAX_DEGRADED_DURATION_NS, DEFAULT_MAX_DROP_RATE, DEFAULT_MIN_CONFORMANCE, DEFAULT_MIN_REQUIRED_AXES, DEFAULT_OBSERVABILITY_TOLERANCE, DegradedModeKind, DegradedModePolicy, DegradedModeViolation, GovernanceConfig, GovernanceEvaluator, GovernanceVerdict, ObservabilityClaimDelta, POLICY_ID, ReplayDropCategory, ReplayDropEntry, SCHEMA_VERSION, ViolationEntry};



fn epoch() -> SecurityEpoch {
    SecurityEpoch::from_raw(42)
}

// --- Constants ---

#[test]
fn hostcall_conformance_governance_schema_version_format() {
    assert!(SCHEMA_VERSION.starts_with("franken-engine."));
}

#[test]
fn hostcall_conformance_governance_component_name() {
    assert_eq!(COMPONENT, "hostcall_conformance_governance");
}

#[test]
fn hostcall_conformance_governance_bead_id_format() {
    assert!(BEAD_ID.starts_with("bd-"));
    assert_eq!(BEAD_ID, "bd-1lsy.6.5.3");
}

#[test]
fn hostcall_conformance_governance_policy_id_format() {
    assert!(POLICY_ID.starts_with("RGC-"));
    assert_eq!(POLICY_ID, "RGC-505C");
}

#[test]
fn hostcall_conformance_governance_default_thresholds_valid() {
    const {
        assert!(DEFAULT_MIN_CONFORMANCE > 0 && DEFAULT_MIN_CONFORMANCE <= 1_000_000);
        assert!(DEFAULT_MAX_DROP_RATE > 0 && DEFAULT_MAX_DROP_RATE <= 1_000_000);
        assert!(DEFAULT_MAX_DEGRADED_DURATION_NS > 0);
        assert!(
            DEFAULT_OBSERVABILITY_TOLERANCE > 0 && DEFAULT_OBSERVABILITY_TOLERANCE <= 1_000_000
        );
    }
    assert!(
        DEFAULT_MIN_REQUIRED_AXES > 0
            && DEFAULT_MIN_REQUIRED_AXES <= ConformanceAxis::ALL.len()
    );
}

// --- ConformanceAxis ---

#[test]
fn axis_all_length() {
    assert_eq!(ConformanceAxis::ALL.len(), 6);
}

#[test]
fn axis_names_unique() {
    let names: BTreeSet<&str> = ConformanceAxis::ALL.iter().map(|a| a.as_str()).collect();
    assert_eq!(names.len(), ConformanceAxis::ALL.len());
}

#[test]
fn axis_display_matches_as_str() {
    for a in ConformanceAxis::ALL.iter() {
        assert_eq!(a.to_string(), a.as_str());
    }
}


// --- ConformanceResult ---

#[test]
fn result_perfect_conformance() {
    let r = ConformanceResult::new(ConformanceAxis::Protocol, 100, 0, 900_000);
    assert_eq!(r.conformance_ratio_millionths, 1_000_000);
    assert!(r.passes);
    assert_eq!(r.total_count(), 100);
}

#[test]
fn result_zero_total() {
    let r = ConformanceResult::new(ConformanceAxis::Encoding, 0, 0, 900_000);
    assert_eq!(r.conformance_ratio_millionths, 0);
    assert!(!r.passes);
}

#[test]
fn result_partial_conformance() {
    let r = ConformanceResult::new(ConformanceAxis::Timeout, 90, 10, 900_000);
    assert_eq!(r.conformance_ratio_millionths, 900_000);
    assert!(r.passes);
}

#[test]
fn result_below_threshold() {
    let r = ConformanceResult::new(ConformanceAxis::Authentication, 80, 20, 900_000);
    assert_eq!(r.conformance_ratio_millionths, 800_000);
    assert!(!r.passes);
}

#[test]
fn result_display() {
    let r = ConformanceResult::new(ConformanceAxis::Protocol, 95, 5, 900_000);
    let s = r.to_string();
    assert!(s.contains("protocol"));
    assert!(s.contains("PASS"));
}


// --- ReplayDropCategory ---

#[test]
fn drop_category_all_length() {
    assert_eq!(ReplayDropCategory::ALL.len(), 5);
}

#[test]
fn drop_category_names_unique() {
    let names: BTreeSet<&str> = ReplayDropCategory::ALL.iter().map(|c| c.as_str()).collect();
    assert_eq!(names.len(), ReplayDropCategory::ALL.len());
}

#[test]
fn drop_category_security_sensitive() {
    assert!(ReplayDropCategory::AuthenticationFailure.is_security_sensitive());
    assert!(ReplayDropCategory::PolicyViolation.is_security_sensitive());
    assert!(!ReplayDropCategory::TimeBudgetExceeded.is_security_sensitive());
    assert!(!ReplayDropCategory::ProtocolMismatch.is_security_sensitive());
    assert!(!ReplayDropCategory::EncodingError.is_security_sensitive());
}


// --- ReplayDropEntry ---

#[test]
fn drop_entry_within_budget() {
    let e = ReplayDropEntry::new(ReplayDropCategory::TimeBudgetExceeded, 2, 1000, 50_000);
    assert_eq!(e.drop_rate_millionths, 2_000);
    assert!(e.within_budget);
}

#[test]
fn drop_entry_over_budget() {
    let e = ReplayDropEntry::new(ReplayDropCategory::EncodingError, 100, 1000, 50_000);
    assert_eq!(e.drop_rate_millionths, 100_000);
    assert!(!e.within_budget);
}

#[test]
fn drop_entry_zero_total() {
    let e = ReplayDropEntry::new(ReplayDropCategory::ProtocolMismatch, 0, 0, 50_000);
    assert_eq!(e.drop_rate_millionths, 0);
    assert!(e.within_budget);
}

#[test]
fn drop_entry_nonzero_drop_zero_total_fails_closed() {
    let e = ReplayDropEntry::new(ReplayDropCategory::ProtocolMismatch, 1, 0, 50_000);
    assert_eq!(e.drop_rate_millionths, 1_000_000);
    assert!(!e.within_budget);
}

#[test]
fn drop_entry_display() {
    let e = ReplayDropEntry::new(ReplayDropCategory::PolicyViolation, 5, 100, 50_000);
    let s = e.to_string();
    assert!(s.contains("policy_violation"));
}


// --- DegradedModeKind ---

#[test]
fn degraded_kind_all_length() {
    assert_eq!(DegradedModeKind::ALL.len(), 5);
}

#[test]
fn degraded_kind_names_unique() {
    let names: BTreeSet<&str> = DegradedModeKind::ALL.iter().map(|k| k.as_str()).collect();
    assert_eq!(names.len(), DegradedModeKind::ALL.len());
}

#[test]
fn degraded_kind_severity_ordering() {
    let mut prev = 0;
    for kind in DegradedModeKind::ALL.iter() {
        let rank = kind.severity_rank();
        assert!(rank > prev, "severity ranks must be strictly increasing");
        prev = rank;
    }
}

#[test]
fn degraded_kind_terminal() {
    assert!(DegradedModeKind::Disconnected.is_terminal());
    assert!(!DegradedModeKind::ReducedBandwidth.is_terminal());
    assert!(!DegradedModeKind::IncreasedLatency.is_terminal());
    assert!(!DegradedModeKind::PartialFunctionality.is_terminal());
    assert!(!DegradedModeKind::ReadOnly.is_terminal());
}


// --- DegradedModePolicy ---

#[test]
fn policy_for_each_kind() {
    for kind in DegradedModeKind::ALL.iter() {
        let policy = DegradedModePolicy::for_kind(*kind);
        assert_eq!(policy.kind, *kind);
    }
}

#[test]
fn policy_disconnected_no_auto_recovery() {
    let p = DegradedModePolicy::for_kind(DegradedModeKind::Disconnected);
    assert!(!p.can_auto_recover());
    assert!(p.requires_operator_ack);
    assert_eq!(p.max_duration_ns, 0);
}

#[test]
fn policy_reduced_bandwidth_auto_recovery() {
    let p = DegradedModePolicy::for_kind(DegradedModeKind::ReducedBandwidth);
    assert!(p.can_auto_recover());
    assert!(!p.requires_operator_ack);
}

#[test]
fn policy_exceeds_duration() {
    let p = DegradedModePolicy::for_kind(DegradedModeKind::IncreasedLatency);
    assert!(!p.exceeds_duration(p.max_duration_ns));
    assert!(p.exceeds_duration(p.max_duration_ns + 1));
}

#[test]
fn policy_display() {
    let p = DegradedModePolicy::for_kind(DegradedModeKind::ReadOnly);
    let s = p.to_string();
    assert!(s.contains("read_only"));
}


// --- ObservabilityClaimDelta ---

#[test]
fn claim_delta_within_tolerance() {
    let d = ObservabilityClaimDelta::new("claim-1", 500_000, 520_000, 50_000);
    assert_eq!(d.delta_millionths, 20_000);
    assert!(d.within_tolerance);
}

#[test]
fn claim_delta_exceeds_tolerance() {
    let d = ObservabilityClaimDelta::new("claim-2", 500_000, 600_000, 50_000);
    assert_eq!(d.delta_millionths, 100_000);
    assert!(!d.within_tolerance);
}

#[test]
fn claim_delta_negative_direction() {
    let d = ObservabilityClaimDelta::new("claim-3", 500_000, 400_000, 50_000);
    assert_eq!(d.delta_millionths, 100_000);
    assert!(!d.within_tolerance);
}

#[test]
fn claim_delta_exact_tolerance() {
    let d = ObservabilityClaimDelta::new("claim-4", 500_000, 550_000, 50_000);
    assert_eq!(d.delta_millionths, 50_000);
    assert!(d.within_tolerance);
}

#[test]
fn claim_delta_relative_drift() {
    let d = ObservabilityClaimDelta::new("claim-5", 1_000_000, 1_100_000, 200_000);
    assert_eq!(d.relative_drift_millionths(), 100_000); // 10%
}

#[test]
fn claim_delta_zero_baseline() {
    let d = ObservabilityClaimDelta::new("claim-6", 0, 100_000, 50_000);
    assert_eq!(d.relative_drift_millionths(), 1_000_000);
}

#[test]
fn claim_delta_zero_baseline_zero_delta() {
    let d = ObservabilityClaimDelta::new("claim-6b", 0, 0, 50_000);
    assert_eq!(d.relative_drift_millionths(), 0);
}

#[test]
fn claim_delta_display() {
    let d = ObservabilityClaimDelta::new("claim-8", 500_000, 600_000, 50_000);
    let s = d.to_string();
    assert!(s.contains("DRIFTED"));
    assert!(s.contains("claim-8"));
}

// --- GovernanceConfig ---

#[test]
fn config_default() {
    let c = GovernanceConfig::default();
    assert_eq!(c.min_conformance, DEFAULT_MIN_CONFORMANCE);
    assert_eq!(c.max_drop_rate, DEFAULT_MAX_DROP_RATE);
    assert_eq!(c.max_degraded_duration, DEFAULT_MAX_DEGRADED_DURATION_NS);
    assert_eq!(
        c.min_observability_tolerance,
        DEFAULT_OBSERVABILITY_TOLERANCE
    );
    assert_eq!(c.required_axes, DEFAULT_MIN_REQUIRED_AXES);
}

#[test]
fn config_strict_stricter_than_default() {
    let d = GovernanceConfig::default();
    let s = GovernanceConfig::strict();
    assert!(s.min_conformance >= d.min_conformance);
    assert!(s.max_drop_rate <= d.max_drop_rate);
    assert!(s.required_axes >= d.required_axes);
}

#[test]
fn config_permissive_more_lenient() {
    let d = GovernanceConfig::default();
    let p = GovernanceConfig::permissive();
    assert!(p.min_conformance <= d.min_conformance);
    assert!(p.max_drop_rate >= d.max_drop_rate);
    assert!(p.required_axes <= d.required_axes);
}


// --- GovernanceVerdict ---

#[test]
fn verdict_all_length() {
    assert_eq!(GovernanceVerdict::ALL.len(), 7);
}

#[test]
fn verdict_names_unique() {
    let names: BTreeSet<&str> = GovernanceVerdict::ALL.iter().map(|v| v.as_str()).collect();
    assert_eq!(names.len(), GovernanceVerdict::ALL.len());
}

#[test]
fn verdict_approved_is_approved() {
    assert!(GovernanceVerdict::Approved.is_approved());
    assert!(!GovernanceVerdict::Approved.is_failure());
}

#[test]
fn verdict_failures_are_failures() {
    for v in GovernanceVerdict::ALL.iter() {
        if *v != GovernanceVerdict::Approved {
            assert!(v.is_failure());
            assert!(!v.is_approved());
        }
    }
}

#[test]
fn hostcall_conformance_governance_verdict_display() {
    assert_eq!(GovernanceVerdict::Approved.to_string(), "approved");
    assert_eq!(
        GovernanceVerdict::MultipleViolations.to_string(),
        "multiple_violations",
    );
}


// --- GovernanceEvaluator ---

fn all_axes_passing(eval: &mut GovernanceEvaluator) {
    for axis in ConformanceAxis::ALL.iter() {
        eval.add_conformance(*axis, 100, 0);
    }
}

#[test]
fn evaluator_empty_insufficient_coverage() {
    let eval = GovernanceEvaluator::with_defaults();
    let receipt = eval.evaluate(epoch());
    assert_eq!(receipt.verdict, GovernanceVerdict::InsufficientCoverage);
    assert!(receipt.has_violations());
}

#[test]
fn evaluator_all_axes_passing_approved() {
    let mut eval = GovernanceEvaluator::with_defaults();
    all_axes_passing(&mut eval);
    let receipt = eval.evaluate(epoch());
    assert_eq!(receipt.verdict, GovernanceVerdict::Approved);
    assert!(!receipt.has_violations());
}

#[test]
fn evaluator_one_axis_failing() {
    let mut eval = GovernanceEvaluator::with_defaults();
    // Add 5 passing axes (still enough coverage with required_axes=4).
    for axis in &ConformanceAxis::ALL[..5] {
        eval.add_conformance(*axis, 100, 0);
    }
    // Add 1 failing axis.
    eval.add_conformance(ConformanceAxis::Authorization, 50, 50);
    let receipt = eval.evaluate(epoch());
    assert_eq!(receipt.verdict, GovernanceVerdict::ConformanceViolation);
    assert_eq!(receipt.violation_count(), 1);
}

#[test]
fn evaluator_drop_rate_exceeded() {
    let mut eval = GovernanceEvaluator::with_defaults();
    all_axes_passing(&mut eval);
    eval.add_replay_drop(ReplayDropCategory::TimeBudgetExceeded, 100, 1000);
    let receipt = eval.evaluate(epoch());
    assert_eq!(receipt.verdict, GovernanceVerdict::DropRateExceeded);
}

#[test]
fn evaluator_drop_rate_within_budget() {
    let mut eval = GovernanceEvaluator::with_defaults();
    all_axes_passing(&mut eval);
    eval.add_replay_drop(ReplayDropCategory::EncodingError, 1, 1000);
    let receipt = eval.evaluate(epoch());
    assert_eq!(receipt.verdict, GovernanceVerdict::Approved);
}

#[test]
fn evaluator_degraded_mode_violation() {
    let mut eval = GovernanceEvaluator::with_defaults();
    all_axes_passing(&mut eval);
    // Exceed the duration for ReducedBandwidth.
    eval.add_degraded_mode(
        DegradedModeKind::ReducedBandwidth,
        DEFAULT_MAX_DEGRADED_DURATION_NS + 1,
        false,
    );
    let receipt = eval.evaluate(epoch());
    assert_eq!(
        receipt.verdict,
        GovernanceVerdict::DegradedModePolicyViolation
    );
}

#[test]
fn evaluator_degraded_mode_within_limits() {
    let mut eval = GovernanceEvaluator::with_defaults();
    all_axes_passing(&mut eval);
    eval.add_degraded_mode(DegradedModeKind::ReducedBandwidth, 1_000, false);
    let receipt = eval.evaluate(epoch());
    assert_eq!(receipt.verdict, GovernanceVerdict::Approved);
}

#[test]
fn evaluator_degraded_missing_ack() {
    let mut eval = GovernanceEvaluator::with_defaults();
    all_axes_passing(&mut eval);
    // PartialFunctionality requires ack; provide operator_acked=false.
    eval.add_degraded_mode(DegradedModeKind::PartialFunctionality, 1_000, false);
    let receipt = eval.evaluate(epoch());
    assert_eq!(
        receipt.verdict,
        GovernanceVerdict::DegradedModePolicyViolation
    );
}

#[test]
fn evaluator_degraded_with_ack() {
    let mut eval = GovernanceEvaluator::with_defaults();
    all_axes_passing(&mut eval);
    eval.add_degraded_mode(DegradedModeKind::PartialFunctionality, 1_000, true);
    let receipt = eval.evaluate(epoch());
    assert_eq!(receipt.verdict, GovernanceVerdict::Approved);
}

#[test]
fn evaluator_observability_drift() {
    let mut eval = GovernanceEvaluator::with_defaults();
    all_axes_passing(&mut eval);
    eval.add_claim_delta("obs-1", 500_000, 700_000);
    let receipt = eval.evaluate(epoch());
    assert_eq!(receipt.verdict, GovernanceVerdict::ObservabilityDrift);
}

#[test]
fn evaluator_observability_within_tolerance() {
    let mut eval = GovernanceEvaluator::with_defaults();
    all_axes_passing(&mut eval);
    eval.add_claim_delta("obs-2", 500_000, 530_000);
    let receipt = eval.evaluate(epoch());
    assert_eq!(receipt.verdict, GovernanceVerdict::Approved);
}

#[test]
fn evaluator_multiple_violations() {
    let mut eval = GovernanceEvaluator::with_defaults();
    all_axes_passing(&mut eval);
    // Cause two distinct violation categories.
    eval.add_replay_drop(ReplayDropCategory::EncodingError, 200, 1000);
    eval.add_claim_delta("obs-x", 100_000, 500_000);
    let receipt = eval.evaluate(epoch());
    assert_eq!(receipt.verdict, GovernanceVerdict::MultipleViolations);
    assert!(receipt.violation_count() >= 2);
}

#[test]
fn evaluator_receipt_hash_deterministic() {
    let mut eval1 = GovernanceEvaluator::with_defaults();
    all_axes_passing(&mut eval1);
    let r1 = eval1.evaluate(epoch());

    let mut eval2 = GovernanceEvaluator::with_defaults();
    all_axes_passing(&mut eval2);
    let r2 = eval2.evaluate(epoch());

    assert_eq!(r1.content_hash, r2.content_hash);
}

#[test]
fn evaluator_receipt_hash_differs_on_change() {
    let mut eval1 = GovernanceEvaluator::with_defaults();
    all_axes_passing(&mut eval1);
    let r1 = eval1.evaluate(epoch());

    let mut eval2 = GovernanceEvaluator::with_defaults();
    all_axes_passing(&mut eval2);
    eval2.add_replay_drop(ReplayDropCategory::TimeBudgetExceeded, 1, 1000);
    let r2 = eval2.evaluate(epoch());

    assert_ne!(r1.content_hash, r2.content_hash);
}

#[test]
fn evaluator_evidence_count() {
    let mut eval = GovernanceEvaluator::with_defaults();
    assert_eq!(eval.evidence_count(), 0);
    eval.add_conformance(ConformanceAxis::Protocol, 10, 0);
    assert_eq!(eval.evidence_count(), 1);
    eval.add_replay_drop(ReplayDropCategory::EncodingError, 0, 10);
    assert_eq!(eval.evidence_count(), 2);
    eval.add_degraded_mode(DegradedModeKind::ReadOnly, 100, true);
    assert_eq!(eval.evidence_count(), 3);
    eval.add_claim_delta("x", 100, 200);
    assert_eq!(eval.evidence_count(), 4);
}

#[test]
fn evaluator_reset() {
    let mut eval = GovernanceEvaluator::with_defaults();
    eval.add_conformance(ConformanceAxis::Protocol, 10, 0);
    eval.add_replay_drop(ReplayDropCategory::EncodingError, 0, 10);
    eval.reset();
    assert_eq!(eval.evidence_count(), 0);
}

#[test]
fn evaluator_verdict_convenience() {
    let mut eval = GovernanceEvaluator::with_defaults();
    all_axes_passing(&mut eval);
    assert_eq!(eval.verdict(epoch()), GovernanceVerdict::Approved);
}

#[test]
fn evaluator_custom_config() {
    let config = GovernanceConfig {
        min_conformance: 500_000,
        max_drop_rate: 100_000,
        max_degraded_duration: 1_000_000_000,
        min_observability_tolerance: 100_000,
        required_axes: 2,
    };
    let mut eval = GovernanceEvaluator::with_config(config);
    eval.add_conformance(ConformanceAxis::Protocol, 60, 40);
    eval.add_conformance(ConformanceAxis::Encoding, 55, 45);
    let receipt = eval.evaluate(epoch());
    assert_eq!(receipt.verdict, GovernanceVerdict::Approved);
}

#[test]
fn evaluator_custom_policy() {
    let mut eval = GovernanceEvaluator::with_defaults();
    all_axes_passing(&mut eval);
    let policy = DegradedModePolicy {
        kind: DegradedModeKind::IncreasedLatency,
        max_duration_ns: 1_000,
        requires_operator_ack: false,
        auto_recovery: true,
    };
    eval.add_degraded_mode_with_policy(policy, 500, true);
    let receipt = eval.evaluate(epoch());
    assert_eq!(receipt.verdict, GovernanceVerdict::Approved);
}

#[test]
fn receipt_total_entries() {
    let mut eval = GovernanceEvaluator::with_defaults();
    all_axes_passing(&mut eval);
    eval.add_replay_drop(ReplayDropCategory::TimeBudgetExceeded, 0, 100);
    eval.add_degraded_mode(DegradedModeKind::ReducedBandwidth, 100, false);
    eval.add_claim_delta("obs", 100_000, 110_000);
    let receipt = eval.evaluate(epoch());
    assert_eq!(receipt.total_entries(), 9); // 6 + 1 + 1 + 1
}

#[test]
fn receipt_display() {
    let mut eval = GovernanceEvaluator::with_defaults();
    all_axes_passing(&mut eval);
    let receipt = eval.evaluate(epoch());
    let s = receipt.to_string();
    assert!(s.contains("hostcall_conformance_governance"));
    assert!(s.contains("approved"));
}

#[test]
fn violation_entry_display() {
    let v = ViolationEntry {
        category: GovernanceVerdict::ConformanceViolation,
        description: "axis protocol failed".into(),
    };
    let s = v.to_string();
    assert!(s.contains("conformance_violation"));
    assert!(s.contains("axis protocol failed"));
}

#[test]
fn degraded_mode_violation_display() {
    let v = DegradedModeViolation {
        kind: DegradedModeKind::ReadOnly,
        observed_duration_ns: 100_000,
        max_duration_ns: 50_000,
        missing_operator_ack: true,
    };
    let s = v.to_string();
    assert!(s.contains("read_only"));
    assert!(s.contains("ack_missing=true"));
}

#[test]
fn evaluator_permissive_config_allows_more() {
    let mut eval = GovernanceEvaluator::with_config(GovernanceConfig::permissive());
    eval.add_conformance(ConformanceAxis::Protocol, 60, 40);
    let receipt = eval.evaluate(epoch());
    assert_eq!(receipt.verdict, GovernanceVerdict::Approved);
}

#[test]
fn evaluator_strict_config_rejects_more() {
    let mut eval = GovernanceEvaluator::with_config(GovernanceConfig::strict());
    // Only 4 axes but strict requires 6.
    for axis in &ConformanceAxis::ALL[..4] {
        eval.add_conformance(*axis, 100, 0);
    }
    let receipt = eval.evaluate(epoch());
    assert_eq!(receipt.verdict, GovernanceVerdict::InsufficientCoverage);
}


#[test]
fn configured_degraded_duration_limit_is_enforced() {
    let config = GovernanceConfig { max_degraded_duration: 1_000, ..GovernanceConfig::default() };
    let mut eval = GovernanceEvaluator::with_config(config);
    all_axes_passing(&mut eval);
    eval.add_degraded_mode(DegradedModeKind::ReducedBandwidth, 5_000, false);
    let receipt = eval.evaluate(SecurityEpoch::from_raw(42));
    assert_eq!(receipt.verdict, GovernanceVerdict::DegradedModePolicyViolation);
    assert_eq!(receipt.violations.len(), 1);
    assert!(receipt.violations[0].description.contains("max=1000ns"));
    // Within the configured limit the same episode is approved.
    let mut ok = GovernanceEvaluator::with_config(config_with_limit(10_000));
    all_axes_passing(&mut ok);
    ok.add_degraded_mode(DegradedModeKind::ReducedBandwidth, 5_000, false);
    assert_eq!(ok.evaluate(SecurityEpoch::from_raw(42)).verdict, GovernanceVerdict::Approved);
}

fn config_with_limit(limit: u64) -> GovernanceConfig {
    GovernanceConfig { max_degraded_duration: limit, ..GovernanceConfig::default() }
}
