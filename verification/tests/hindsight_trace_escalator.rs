use franken_engine::foundation::SecurityEpoch;
use franken_engine::hindsight_trace_escalator::{
    standard_artifact_specs, EscalationLevel, EscalationPolicy, EscalationTrigger,
    EscalationVerdict, EscalatorState, HindsightTraceEscalator, SupportBundleArtifact,
    SupportBundleManifest, TriggerCategory, TriggerSeverity, ESCALATION_BEAD_ID,
};
use std::collections::BTreeSet;


fn test_epoch() -> SecurityEpoch {
    SecurityEpoch::from_raw(100)
}

fn test_trigger(
    category: TriggerCategory,
    severity: TriggerSeverity,
) -> EscalationTrigger {
    EscalationTrigger::new(
        "trigger-001",
        category,
        severity,
        "test trigger",
        "test_component",
        test_epoch(),
    )
}

#[test]
fn escalation_level_ordering() {
    assert!(EscalationLevel::Minimal < EscalationLevel::Extended);
    assert!(EscalationLevel::Extended < EscalationLevel::Full);
    assert!(EscalationLevel::Full < EscalationLevel::Forensic);
}

#[test]
fn escalation_level_depth() {
    assert_eq!(EscalationLevel::Minimal.depth(), 0);
    assert_eq!(EscalationLevel::Extended.depth(), 1);
    assert_eq!(EscalationLevel::Full.depth(), 2);
    assert_eq!(EscalationLevel::Forensic.depth(), 3);
}

#[test]
fn escalation_level_display() {
    assert_eq!(EscalationLevel::Minimal.to_string(), "minimal");
    assert_eq!(EscalationLevel::Extended.to_string(), "extended");
    assert_eq!(EscalationLevel::Full.to_string(), "full");
    assert_eq!(EscalationLevel::Forensic.to_string(), "forensic");
}

#[test]
fn trigger_category_display() {
    assert_eq!(
        TriggerCategory::SecurityEvent.to_string(),
        "security_event"
    );
    assert_eq!(
        TriggerCategory::CorrectnessFailure.to_string(),
        "correctness_failure"
    );
    assert_eq!(
        TriggerCategory::DeterminismViolation.to_string(),
        "determinism_violation"
    );
}

#[test]
fn trigger_severity_minimum_escalation() {
    assert_eq!(
        TriggerSeverity::Info.minimum_escalation(),
        EscalationLevel::Extended
    );
    assert_eq!(
        TriggerSeverity::Warning.minimum_escalation(),
        EscalationLevel::Extended
    );
    assert_eq!(
        TriggerSeverity::Critical.minimum_escalation(),
        EscalationLevel::Full
    );
    assert_eq!(
        TriggerSeverity::Fatal.minimum_escalation(),
        EscalationLevel::Forensic
    );
}

#[test]
fn trigger_content_hash_deterministic() {
    let t1 = test_trigger(TriggerCategory::Regression, TriggerSeverity::Warning);
    let t2 = test_trigger(TriggerCategory::Regression, TriggerSeverity::Warning);
    assert_eq!(t1.content_hash(), t2.content_hash());
}

#[test]
fn trigger_content_hash_changes_with_category() {
    let t1 = test_trigger(TriggerCategory::Regression, TriggerSeverity::Warning);
    let t2 = test_trigger(TriggerCategory::SecurityEvent, TriggerSeverity::Warning);
    assert_ne!(t1.content_hash(), t2.content_hash());
}

#[test]
fn standard_artifact_specs_has_all_levels() {
    let specs = standard_artifact_specs();
    let levels: BTreeSet<_> = specs.iter().map(|s| s.min_level).collect();
    assert!(levels.contains(&EscalationLevel::Minimal));
    assert!(levels.contains(&EscalationLevel::Extended));
    assert!(levels.contains(&EscalationLevel::Full));
    assert!(levels.contains(&EscalationLevel::Forensic));
}

#[test]
fn policy_resolve_level_defaults_to_severity() {
    let policy = EscalationPolicy::default();
    let trigger = test_trigger(TriggerCategory::Regression, TriggerSeverity::Critical);
    assert_eq!(policy.resolve_level(&trigger), EscalationLevel::Full);
}

#[test]
fn policy_resolve_level_category_override() {
    let mut policy = EscalationPolicy::default();
    policy.category_overrides.insert(
        TriggerCategory::Regression.to_string(),
        EscalationLevel::Forensic,
    );
    policy.allow_forensic = true;
    let trigger = test_trigger(TriggerCategory::Regression, TriggerSeverity::Info);
    assert_eq!(policy.resolve_level(&trigger), EscalationLevel::Forensic);
}

#[test]
fn policy_resolve_level_clamps_forensic_when_disallowed() {
    let mut policy = EscalationPolicy::default();
    policy.allow_forensic = false;
    let trigger = test_trigger(TriggerCategory::SecurityEvent, TriggerSeverity::Fatal);
    assert_eq!(policy.resolve_level(&trigger), EscalationLevel::Full);
}

#[test]
fn policy_artifacts_for_level() {
    let policy = EscalationPolicy::default();
    let minimal = policy.artifacts_for_level(EscalationLevel::Minimal);
    let full = policy.artifacts_for_level(EscalationLevel::Full);
    assert!(minimal.len() < full.len());
}

#[test]
fn policy_estimate_bundle_size() {
    let policy = EscalationPolicy::default();
    let minimal_size = policy.estimate_bundle_size(EscalationLevel::Minimal);
    let full_size = policy.estimate_bundle_size(EscalationLevel::Full);
    assert!(minimal_size < full_size);
    assert!(minimal_size > 0);
}

#[test]
fn policy_content_hash_deterministic() {
    let p1 = EscalationPolicy::default();
    let p2 = EscalationPolicy::default();
    assert_eq!(p1.content_hash(), p2.content_hash());
}

#[test]
fn escalator_approve_basic() {
    let policy = EscalationPolicy::default();
    let mut escalator = HindsightTraceEscalator::new(policy, test_epoch());
    let trigger =
        test_trigger(TriggerCategory::Regression, TriggerSeverity::Warning);
    let decision = escalator.evaluate(trigger);
    assert!(matches!(
        decision.verdict,
        EscalationVerdict::Approved { .. }
    ));
    assert_eq!(escalator.state.total_approved, 1);
    assert_eq!(escalator.state.active_escalations, 1);
}

#[test]
fn escalator_suppress_capacity() {
    let mut policy = EscalationPolicy::default();
    policy.max_active_escalations = 1;
    let mut escalator = HindsightTraceEscalator::new(policy, test_epoch());
    // First trigger approved.
    let t1 = test_trigger(TriggerCategory::Regression, TriggerSeverity::Warning);
    let d1 = escalator.evaluate(t1);
    assert!(matches!(d1.verdict, EscalationVerdict::Approved { .. }));
    // Second trigger suppressed.
    let t2 = EscalationTrigger::new(
        "trigger-002",
        TriggerCategory::SecurityEvent,
        TriggerSeverity::Warning,
        "another trigger",
        "other_component",
        test_epoch(),
    );
    let d2 = escalator.evaluate(t2);
    assert!(matches!(
        d2.verdict,
        EscalationVerdict::SuppressedCapacity { .. }
    ));
}

#[test]
fn escalator_suppress_cooldown() {
    let mut policy = EscalationPolicy::default();
    policy.cooldown_epochs = 5;
    let mut escalator = HindsightTraceEscalator::new(policy, test_epoch());
    let mut t1 = test_trigger(TriggerCategory::Regression, TriggerSeverity::Warning);
    t1.correlation_id = Some("corr-1".into());
    let d1 = escalator.evaluate(t1);
    assert!(matches!(d1.verdict, EscalationVerdict::Approved { .. }));
    // Complete the first escalation to free capacity.
    escalator.complete_escalation();
    // Second trigger with same correlation ID should be cooled down.
    let mut t2 = test_trigger(TriggerCategory::Regression, TriggerSeverity::Warning);
    t2.trigger_id = "trigger-002".into();
    t2.correlation_id = Some("corr-1".into());
    let d2 = escalator.evaluate(t2);
    assert!(matches!(
        d2.verdict,
        EscalationVerdict::SuppressedCooldown { .. }
    ));
}

#[test]
fn escalator_cooldown_expires() {
    let mut policy = EscalationPolicy::default();
    policy.cooldown_epochs = 3;
    let mut escalator = HindsightTraceEscalator::new(policy, test_epoch());
    let mut t1 = test_trigger(TriggerCategory::Regression, TriggerSeverity::Warning);
    t1.correlation_id = Some("corr-1".into());
    escalator.evaluate(t1);
    escalator.complete_escalation();
    // Advance epoch past cooldown.
    escalator.advance_epoch(SecurityEpoch::from_raw(200));
    let mut t2 = test_trigger(TriggerCategory::Regression, TriggerSeverity::Warning);
    t2.trigger_id = "trigger-003".into();
    t2.correlation_id = Some("corr-1".into());
    t2.epoch = SecurityEpoch::from_raw(200);
    let d2 = escalator.evaluate(t2);
    assert!(matches!(d2.verdict, EscalationVerdict::Approved { .. }));
}

#[test]
fn escalator_complete_frees_capacity() {
    let mut policy = EscalationPolicy::default();
    policy.max_active_escalations = 1;
    let mut escalator = HindsightTraceEscalator::new(policy, test_epoch());
    let t1 = test_trigger(TriggerCategory::Regression, TriggerSeverity::Warning);
    escalator.evaluate(t1);
    assert_eq!(escalator.state.active_escalations, 1);
    escalator.complete_escalation();
    assert_eq!(escalator.state.active_escalations, 0);
    // Now a new trigger should be approved.
    let t2 = EscalationTrigger::new(
        "trigger-002",
        TriggerCategory::SecurityEvent,
        TriggerSeverity::Critical,
        "security trigger",
        "security",
        test_epoch(),
    );
    let d2 = escalator.evaluate(t2);
    assert!(matches!(d2.verdict, EscalationVerdict::Approved { .. }));
}

#[test]
fn escalator_summary() {
    let policy = EscalationPolicy::default();
    let mut escalator = HindsightTraceEscalator::new(policy, test_epoch());
    let t = test_trigger(TriggerCategory::Regression, TriggerSeverity::Critical);
    escalator.evaluate(t);
    let summary = escalator.summary();
    assert_eq!(summary.total_approved, 1);
    assert_eq!(summary.active_escalations, 1);
    assert!(!summary.policy_hash.is_empty());
}

#[test]
fn escalator_decision_log_bounded() {
    let policy = EscalationPolicy::default();
    let mut escalator = HindsightTraceEscalator::new(policy, test_epoch());
    escalator.max_log_entries = 3;
    for i in 0..10 {
        let t = EscalationTrigger::new(
            &format!("trigger-{i:03}"),
            TriggerCategory::PerformanceAnomaly,
            TriggerSeverity::Warning,
            "perf anomaly",
            "profiler",
            test_epoch(),
        );
        escalator.evaluate(t);
        escalator.complete_escalation();
    }
    assert!(escalator.decision_log.len() <= 3);
}

#[test]
fn decision_hash_deterministic() {
    let policy = EscalationPolicy::default();
    let mut e1 = HindsightTraceEscalator::new(policy.clone(), test_epoch());
    let mut e2 = HindsightTraceEscalator::new(policy, test_epoch());
    let t1 = test_trigger(TriggerCategory::Regression, TriggerSeverity::Warning);
    let t2 = test_trigger(TriggerCategory::Regression, TriggerSeverity::Warning);
    let d1 = e1.evaluate(t1);
    let d2 = e2.evaluate(t2);
    assert_eq!(d1.decision_hash, d2.decision_hash);
}

#[test]
fn approved_decision_includes_artifacts() {
    let policy = EscalationPolicy::default();
    let mut escalator = HindsightTraceEscalator::new(policy, test_epoch());
    let t = test_trigger(TriggerCategory::SecurityEvent, TriggerSeverity::Critical);
    let d = escalator.evaluate(t);
    assert!(!d.artifacts_included.is_empty());
    assert!(d.estimated_bundle_bytes > 0);
}

#[test]
fn suppressed_decision_has_no_artifacts() {
    let mut policy = EscalationPolicy::default();
    policy.max_active_escalations = 0;
    let mut escalator = HindsightTraceEscalator::new(policy, test_epoch());
    let t = test_trigger(TriggerCategory::Regression, TriggerSeverity::Warning);
    let d = escalator.evaluate(t);
    assert!(d.artifacts_included.is_empty());
    assert_eq!(d.estimated_bundle_bytes, 0);
}

#[test]
fn support_bundle_manifest_from_decision() {
    let policy = EscalationPolicy::default();
    let mut escalator = HindsightTraceEscalator::new(policy, test_epoch());
    let t = test_trigger(TriggerCategory::Regression, TriggerSeverity::Warning);
    let decision = escalator.evaluate(t);
    let artifacts = vec![SupportBundleArtifact {
        label: "decision_log".into(),
        format: "jsonl".into(),
        path: "/tmp/bundle/decisions.jsonl".into(),
        bytes: 4096,
        content_hash: "abc123".into(),
    }];
    let manifest =
        SupportBundleManifest::from_decision(&decision, "bundle-001", artifacts);
    assert_eq!(manifest.bead_id, ESCALATION_BEAD_ID);
    assert_eq!(manifest.total_bytes, 4096);
    assert!(!manifest.manifest_hash.is_empty());
}

#[test]
fn escalation_verdict_display() {
    assert_eq!(
        EscalationVerdict::Approved {
            level: EscalationLevel::Full
        }
        .to_string(),
        "approved(full)"
    );
    assert_eq!(
        EscalationVerdict::SuppressedBelowThreshold.to_string(),
        "suppressed_below_threshold"
    );
}

#[test]
fn category_counts_tracked() {
    let policy = EscalationPolicy::default();
    let mut escalator = HindsightTraceEscalator::new(policy, test_epoch());
    let t1 = test_trigger(TriggerCategory::Regression, TriggerSeverity::Warning);
    escalator.evaluate(t1);
    escalator.complete_escalation();
    let t2 = EscalationTrigger::new(
        "trigger-002",
        TriggerCategory::Regression,
        TriggerSeverity::Critical,
        "another regression",
        "bench",
        test_epoch(),
    );
    escalator.evaluate(t2);
    assert_eq!(
        escalator.state.category_counts.get("regression"),
        Some(&2)
    );
}

#[test]
fn escalator_state_new() {
    let state = EscalatorState::new(test_epoch());
    assert_eq!(state.active_escalations, 0);
    assert_eq!(state.total_approved, 0);
    assert_eq!(state.total_suppressed, 0);
    assert!(state.cooldowns.is_empty());
}

