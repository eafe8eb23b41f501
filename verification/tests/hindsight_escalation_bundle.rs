use franken_engine::collections::EnumSet;
use franken_engine::foundation::{ContentHash, SecurityEpoch};
use franken_engine::hindsight_escalation_bundle::{
    BoundaryClass, BundleContentEntry, BundleContentKind, EscalationBundle, EscalationDecision,
    EscalationError, EscalationPipeline, EscalationPolicy, EscalationReceipt, EscalationTrigger,
    EscalationTriggerKind, GatesConfig, RedactionTreatment, TriggerSeverity,
};
use std::collections::BTreeSet;


fn test_epoch() -> SecurityEpoch {
    SecurityEpoch::from_raw(100)
}

fn test_trigger(
    id: &str,
    kind: EscalationTriggerKind,
    severity: TriggerSeverity,
) -> EscalationTrigger {
    EscalationTrigger {
        trigger_id: id.to_string(),
        kind,
        severity,
        description: format!("test trigger {id}"),
        relevant_boundaries: vec![BoundaryClass::ClockRead, BoundaryClass::NetworkResponse],
        source_component: "test_component".to_string(),
        trigger_epoch: test_epoch(),
        trigger_hash: ContentHash::compute(b"placeholder"),
    }
}

// --- EscalationTriggerKind tests ---

#[test]
fn trigger_kind_all_count() {
    assert_eq!(EscalationTriggerKind::ALL.len(), 7);
}

#[test]
fn trigger_kind_display() {
    assert_eq!(
        EscalationTriggerKind::AnomalyDetected.to_string(),
        "anomaly_detected"
    );
    assert_eq!(
        EscalationTriggerKind::AnomalyDetected.as_str(),
        "anomaly_detected"
    );
    assert_eq!(
        EscalationTriggerKind::RegressionObserved.to_string(),
        "regression_observed"
    );
    assert_eq!(
        EscalationTriggerKind::RegressionObserved.as_str(),
        "regression_observed"
    );
    assert_eq!(
        EscalationTriggerKind::UserVisibleFailure.to_string(),
        "user_visible_failure"
    );
    assert_eq!(
        EscalationTriggerKind::UserVisibleFailure.as_str(),
        "user_visible_failure"
    );
    assert_eq!(
        EscalationTriggerKind::PolicyViolation.to_string(),
        "policy_violation"
    );
    assert_eq!(
        EscalationTriggerKind::PolicyViolation.as_str(),
        "policy_violation"
    );
    assert_eq!(
        EscalationTriggerKind::ReplayDivergence.to_string(),
        "replay_divergence"
    );
    assert_eq!(
        EscalationTriggerKind::ReplayDivergence.as_str(),
        "replay_divergence"
    );
    assert_eq!(
        EscalationTriggerKind::ResourceExhaustion.to_string(),
        "resource_exhaustion"
    );
    assert_eq!(
        EscalationTriggerKind::ResourceExhaustion.as_str(),
        "resource_exhaustion"
    );
    assert_eq!(
        EscalationTriggerKind::OperatorRequest.to_string(),
        "operator_request"
    );
    assert_eq!(
        EscalationTriggerKind::OperatorRequest.as_str(),
        "operator_request"
    );
}

#[test]
fn trigger_kind_as_str_matches_display() {
    for kind in EscalationTriggerKind::ALL {
        assert_eq!(kind.as_str(), kind.to_string());
    }
}

#[test]
fn trigger_kind_ordering() {
    assert!(EscalationTriggerKind::AnomalyDetected < EscalationTriggerKind::OperatorRequest);
}

// --- TriggerSeverity tests ---

#[test]
fn severity_all_count() {
    assert_eq!(TriggerSeverity::ALL.len(), 4);
}

#[test]
fn severity_display() {
    assert_eq!(TriggerSeverity::Advisory.to_string(), "advisory");
    assert_eq!(TriggerSeverity::Advisory.as_str(), "advisory");
    assert_eq!(TriggerSeverity::Warning.to_string(), "warning");
    assert_eq!(TriggerSeverity::Warning.as_str(), "warning");
    assert_eq!(TriggerSeverity::Critical.to_string(), "critical");
    assert_eq!(TriggerSeverity::Critical.as_str(), "critical");
    assert_eq!(TriggerSeverity::Emergency.to_string(), "emergency");
    assert_eq!(TriggerSeverity::Emergency.as_str(), "emergency");
}

#[test]
fn severity_as_str_matches_display() {
    for severity in TriggerSeverity::ALL {
        assert_eq!(severity.as_str(), severity.to_string());
    }
}

#[test]
fn severity_auto_escalate() {
    assert!(!TriggerSeverity::Advisory.auto_escalate());
    assert!(!TriggerSeverity::Warning.auto_escalate());
    assert!(TriggerSeverity::Critical.auto_escalate());
    assert!(TriggerSeverity::Emergency.auto_escalate());
}

#[test]
fn severity_cost_multiplier_ordering() {
    assert!(
        TriggerSeverity::Advisory.cost_multiplier_millionths()
            < TriggerSeverity::Warning.cost_multiplier_millionths()
    );
    assert!(
        TriggerSeverity::Warning.cost_multiplier_millionths()
            < TriggerSeverity::Critical.cost_multiplier_millionths()
    );
    assert!(
        TriggerSeverity::Critical.cost_multiplier_millionths()
            < TriggerSeverity::Emergency.cost_multiplier_millionths()
    );
}

// --- BundleContentKind tests ---

#[test]
fn content_kind_all_count() {
    assert_eq!(BundleContentKind::ALL.len(), 7);
}

#[test]
fn content_kind_display() {
    assert_eq!(
        BundleContentKind::FullBoundaryCapture.to_string(),
        "full_boundary_capture"
    );
    assert_eq!(
        BundleContentKind::ExecutionTrace.to_string(),
        "execution_trace"
    );
    assert_eq!(BundleContentKind::ReplayInputs.to_string(), "replay_inputs");
}

#[test]
fn content_kind_base_cost_nonzero() {
    for kind in BundleContentKind::ALL {
        assert!(kind.base_cost_millionths() > 0);
    }
}

// --- EscalationTrigger tests ---

#[test]
fn trigger_hash_deterministic() {
    let mut t1 = test_trigger(
        "t-1",
        EscalationTriggerKind::AnomalyDetected,
        TriggerSeverity::Warning,
    );
    t1.recompute_hash();
    let h1 = t1.trigger_hash;
    t1.recompute_hash();
    assert_eq!(h1, t1.trigger_hash);
}

#[test]
fn trigger_different_kinds_different_hashes() {
    let mk = |kind| {
        let mut t = test_trigger("t-1", kind, TriggerSeverity::Warning);
        t.recompute_hash();
        t.trigger_hash
    };
    let h1 = mk(EscalationTriggerKind::AnomalyDetected);
    let h2 = mk(EscalationTriggerKind::PolicyViolation);
    assert_ne!(h1, h2);
}

// --- EscalationBundle tests ---

#[test]
fn bundle_hash_deterministic() {
    let mut b = EscalationBundle {
        bundle_id: "b-1".to_string(),
        trigger_id: "t-1".to_string(),
        entries: vec![BundleContentEntry {
            kind: BundleContentKind::FullBoundaryCapture,
            content_digest: ContentHash::compute(b"content"),
            redaction: RedactionTreatment::DigestOnly,
            size_bytes: 1024,
            complete: true,
        }],
        covered_boundaries: EnumSet::from_slice(&[BoundaryClass::ClockRead]),
        total_cost_millionths: 50_000,
        bundle_epoch: test_epoch(),
        bundle_hash: ContentHash::compute(b"placeholder"),
    };
    b.recompute_hash();
    let h1 = b.bundle_hash;
    b.recompute_hash();
    assert_eq!(h1, b.bundle_hash);
}

#[test]
fn bundle_hash_changes_when_redaction_changes() {
    let mut plain = EscalationBundle {
        bundle_id: "b-1".to_string(),
        trigger_id: "t-1".to_string(),
        entries: vec![BundleContentEntry {
            kind: BundleContentKind::FullBoundaryCapture,
            content_digest: ContentHash::compute(b"content"),
            redaction: RedactionTreatment::Plaintext,
            size_bytes: 1024,
            complete: true,
        }],
        covered_boundaries: EnumSet::from_slice(&[BoundaryClass::ClockRead]),
        total_cost_millionths: 50_000,
        bundle_epoch: test_epoch(),
        bundle_hash: ContentHash::compute(b"placeholder"),
    };
    plain.recompute_hash();

    let mut digest_only = plain.clone();
    digest_only.entries[0].redaction = RedactionTreatment::DigestOnly;
    digest_only.recompute_hash();

    assert_ne!(plain.bundle_hash, digest_only.bundle_hash);
}

#[test]
fn bundle_hash_changes_when_completeness_changes() {
    let mut complete = EscalationBundle {
        bundle_id: "b-1".to_string(),
        trigger_id: "t-1".to_string(),
        entries: vec![BundleContentEntry {
            kind: BundleContentKind::FullBoundaryCapture,
            content_digest: ContentHash::compute(b"content"),
            redaction: RedactionTreatment::DigestOnly,
            size_bytes: 1024,
            complete: true,
        }],
        covered_boundaries: EnumSet::from_slice(&[BoundaryClass::ClockRead]),
        total_cost_millionths: 50_000,
        bundle_epoch: test_epoch(),
        bundle_hash: ContentHash::compute(b"placeholder"),
    };
    complete.recompute_hash();

    let mut truncated = complete.clone();
    truncated.entries[0].complete = false;
    truncated.recompute_hash();

    assert_ne!(complete.bundle_hash, truncated.bundle_hash);
}

// --- EscalationDecision tests ---

#[test]
fn decision_all_count() {
    assert_eq!(EscalationDecision::ALL.len(), 3);
}

#[test]
fn decision_display() {
    assert_eq!(EscalationDecision::Escalate.to_string(), "escalate");
    assert_eq!(EscalationDecision::Suppress.to_string(), "suppress");
    assert_eq!(EscalationDecision::Defer.to_string(), "defer");
}

// --- EscalationReceipt tests ---

#[test]
fn receipt_hash_deterministic() {
    let mut r = EscalationReceipt {
        receipt_id: "r-1".to_string(),
        trigger_id: "t-1".to_string(),
        decision: EscalationDecision::Escalate,
        bundle_id: Some("b-1".to_string()),
        rationale: "auto-escalated".to_string(),
        cost_budget_millionths: 100_000,
        cost_consumed_millionths: 50_000,
        receipt_epoch: test_epoch(),
        receipt_hash: ContentHash::compute(b"placeholder"),
    };
    r.recompute_hash();
    let h1 = r.receipt_hash;
    r.recompute_hash();
    assert_eq!(h1, r.receipt_hash);
}

#[test]
fn receipt_with_without_bundle_different_hash() {
    let mk = |bundle_id: Option<String>| {
        let mut r = EscalationReceipt {
            receipt_id: "r-1".to_string(),
            trigger_id: "t-1".to_string(),
            decision: EscalationDecision::Escalate,
            bundle_id,
            rationale: "test".to_string(),
            cost_budget_millionths: 100_000,
            cost_consumed_millionths: 50_000,
            receipt_epoch: test_epoch(),
            receipt_hash: ContentHash::compute(b"placeholder"),
        };
        r.recompute_hash();
        r.receipt_hash
    };
    let h1 = mk(None);
    let h2 = mk(Some("b-1".to_string()));
    assert_ne!(h1, h2);
}

// --- EscalationPolicy tests ---

#[test]
fn policy_default_has_always_escalate() {
    let policy = EscalationPolicy::default();
    assert!(
        policy
            .always_escalate
            .contains(&EscalationTriggerKind::UserVisibleFailure)
    );
    assert!(
        policy
            .always_escalate
            .contains(&EscalationTriggerKind::PolicyViolation)
    );
}

#[test]
fn policy_content_for_severity_emergency_has_all() {
    let policy = EscalationPolicy::default();
    assert_eq!(
        policy
            .content_for_severity(TriggerSeverity::Emergency)
            .len(),
        7
    );
}

#[test]
fn policy_content_advisory_subset_of_critical() {
    let policy = EscalationPolicy::default();
    let advisory: BTreeSet<_> = policy
        .content_for_severity(TriggerSeverity::Advisory)
        .iter()
        .collect();
    let critical: BTreeSet<_> = policy
        .content_for_severity(TriggerSeverity::Critical)
        .iter()
        .collect();
    assert!(advisory.is_subset(&critical));
}

// --- EscalationPipeline tests ---

#[test]
fn pipeline_new_is_empty() {
    let pipeline = EscalationPipeline::new(EscalationPolicy::default(), test_epoch());
    assert!(pipeline.triggers.is_empty());
    assert!(pipeline.receipts.is_empty());
    assert!(pipeline.bundles.is_empty());
}

#[test]
fn pipeline_process_user_visible_failure_escalates() {
    let mut pipeline = EscalationPipeline::new(EscalationPolicy::default(), test_epoch());
    let trigger = test_trigger(
        "t-uvf",
        EscalationTriggerKind::UserVisibleFailure,
        TriggerSeverity::Critical,
    );
    let receipt = pipeline.process_trigger(trigger);
    assert_eq!(receipt.decision, EscalationDecision::Escalate);
    assert!(receipt.bundle_id.is_some());
}

#[test]
fn pipeline_process_policy_violation_escalates() {
    let mut pipeline = EscalationPipeline::new(EscalationPolicy::default(), test_epoch());
    let trigger = test_trigger(
        "t-pv",
        EscalationTriggerKind::PolicyViolation,
        TriggerSeverity::Warning,
    );
    let receipt = pipeline.process_trigger(trigger);
    assert_eq!(receipt.decision, EscalationDecision::Escalate);
}

#[test]
fn pipeline_always_suppress() {
    let mut policy = EscalationPolicy::default();
    policy
        .always_suppress
        .insert(EscalationTriggerKind::AnomalyDetected);
    let mut pipeline = EscalationPipeline::new(policy, test_epoch());
    let trigger = test_trigger(
        "t-supp",
        EscalationTriggerKind::AnomalyDetected,
        TriggerSeverity::Emergency,
    );
    let receipt = pipeline.process_trigger(trigger);
    assert_eq!(receipt.decision, EscalationDecision::Suppress);
}

#[test]
fn pipeline_critical_auto_escalates() {
    let mut pipeline = EscalationPipeline::new(EscalationPolicy::default(), test_epoch());
    let trigger = test_trigger(
        "t-crit",
        EscalationTriggerKind::ResourceExhaustion,
        TriggerSeverity::Critical,
    );
    let receipt = pipeline.process_trigger(trigger);
    assert_eq!(receipt.decision, EscalationDecision::Escalate);
}

#[test]
fn pipeline_advisory_within_budget_escalates() {
    let mut pipeline = EscalationPipeline::new(EscalationPolicy::default(), test_epoch());
    let trigger = test_trigger(
        "t-adv",
        EscalationTriggerKind::AnomalyDetected,
        TriggerSeverity::Advisory,
    );
    let receipt = pipeline.process_trigger(trigger);
    // Advisory should escalate if within budget
    assert_eq!(receipt.decision, EscalationDecision::Escalate);
}

#[test]
fn pipeline_budget_depletes() {
    let policy = EscalationPolicy {
        cost_budget_millionths: 10_000, // very small budget
        ..Default::default()
    };
    let mut pipeline = EscalationPipeline::new(policy, test_epoch());

    // First trigger should escalate and consume budget
    let t1 = test_trigger(
        "t-b1",
        EscalationTriggerKind::ResourceExhaustion,
        TriggerSeverity::Critical,
    );
    pipeline.process_trigger(t1);

    // Budget should be depleted
    let remaining = pipeline.remaining_budget_millionths;
    // Depending on costs, budget may or may not be zero
    assert!(remaining < pipeline.policy.cost_budget_millionths || remaining == 0);
}

#[test]
fn pipeline_receipt_preserves_budget_before_for_forced_auto_escalation() {
    let mut policy = EscalationPolicy {
        cost_budget_millionths: 1,
        ..Default::default()
    };
    policy.always_escalate.clear();
    let mut pipeline = EscalationPipeline::new(policy, test_epoch());

    let receipt = pipeline.process_trigger(test_trigger(
        "t-budget-before",
        EscalationTriggerKind::ResourceExhaustion,
        TriggerSeverity::Critical,
    ));

    assert_eq!(receipt.decision, EscalationDecision::Escalate);
    assert_eq!(receipt.cost_budget_millionths, 1);
    assert!(receipt.cost_consumed_millionths > receipt.cost_budget_millionths);
    assert_eq!(pipeline.remaining_budget_millionths, 0);
}

#[test]
fn pipeline_escalated_receipts() {
    let mut pipeline = EscalationPipeline::new(EscalationPolicy::default(), test_epoch());
    pipeline.process_trigger(test_trigger(
        "t-1",
        EscalationTriggerKind::UserVisibleFailure,
        TriggerSeverity::Critical,
    ));
    pipeline.process_trigger(test_trigger(
        "t-2",
        EscalationTriggerKind::AnomalyDetected,
        TriggerSeverity::Advisory,
    ));
    assert!(!pipeline.escalated_receipts().is_empty());
}

#[test]
fn pipeline_bundle_for_trigger() {
    let mut pipeline = EscalationPipeline::new(EscalationPolicy::default(), test_epoch());
    pipeline.process_trigger(test_trigger(
        "t-bf",
        EscalationTriggerKind::UserVisibleFailure,
        TriggerSeverity::Critical,
    ));
    let bundle = pipeline.bundle_for_trigger("t-bf");
    assert!(bundle.is_some());
    assert_eq!(bundle.unwrap().trigger_id, "t-bf");
}

#[test]
fn pipeline_bundle_has_entries() {
    let mut pipeline = EscalationPipeline::new(EscalationPolicy::default(), test_epoch());
    pipeline.process_trigger(test_trigger(
        "t-ent",
        EscalationTriggerKind::PolicyViolation,
        TriggerSeverity::Critical,
    ));
    let bundle = pipeline.bundle_for_trigger("t-ent").unwrap();
    assert!(!bundle.entries.is_empty());
    assert!(bundle.total_cost_millionths > 0);
}

#[test]
fn pipeline_emergency_gets_all_content() {
    let mut pipeline = EscalationPipeline::new(EscalationPolicy::default(), test_epoch());
    pipeline.process_trigger(test_trigger(
        "t-emg",
        EscalationTriggerKind::UserVisibleFailure,
        TriggerSeverity::Emergency,
    ));
    let bundle = pipeline.bundle_for_trigger("t-emg").unwrap();
    assert_eq!(bundle.entries.len(), BundleContentKind::ALL.len());
}

#[test]
fn pipeline_summary_report() {
    let mut pipeline = EscalationPipeline::new(EscalationPolicy::default(), test_epoch());
    for (i, kind) in EscalationTriggerKind::ALL.iter().enumerate() {
        pipeline.process_trigger(test_trigger(
            &format!("t-sum-{i}"),
            *kind,
            TriggerSeverity::Warning,
        ));
    }
    let summary = pipeline.summary_report();
    assert_eq!(summary.total_triggers, 7);
    assert_eq!(
        summary.escalated_count + summary.suppressed_count + summary.deferred_count,
        7
    );
}

#[test]
fn pipeline_hash_changes() {
    let mut pipeline = EscalationPipeline::new(EscalationPolicy::default(), test_epoch());
    let h1 = pipeline.pipeline_hash;
    pipeline.process_trigger(test_trigger(
        "t-hc",
        EscalationTriggerKind::AnomalyDetected,
        TriggerSeverity::Warning,
    ));
    assert_ne!(h1, pipeline.pipeline_hash);
}

// --- Error display tests ---

#[test]
fn error_display() {
    let e = EscalationError::TriggerNotFound {
        trigger_id: "t-1".to_string(),
    };
    assert!(e.to_string().contains("t-1"));

    let e = EscalationError::BundleNotFound {
        bundle_id: "b-1".to_string(),
    };
    assert!(e.to_string().contains("b-1"));

    let e = EscalationError::BudgetExhausted {
        remaining: 0,
        required: 50_000,
    };
    assert!(e.to_string().contains("50000"));

    let e = EscalationError::InvalidPolicy {
        detail: "bad".to_string(),
    };
    assert!(e.to_string().contains("bad"));
}

// --- Determinism tests ---

#[test]
fn deterministic_pipeline_same_triggers() {
    let policy = EscalationPolicy::default();
    let mut p1 = EscalationPipeline::new(policy.clone(), test_epoch());
    let mut p2 = EscalationPipeline::new(policy, test_epoch());

    let triggers = vec![
        test_trigger(
            "t-a",
            EscalationTriggerKind::AnomalyDetected,
            TriggerSeverity::Warning,
        ),
        test_trigger(
            "t-b",
            EscalationTriggerKind::PolicyViolation,
            TriggerSeverity::Critical,
        ),
    ];

    for t in &triggers {
        p1.process_trigger(t.clone());
    }
    for t in &triggers {
        p2.process_trigger(t.clone());
    }

    assert_eq!(p1.pipeline_hash, p2.pipeline_hash);
}

// --- Content redaction tests ---

#[test]
fn emergency_redaction_is_plaintext() {
    let mut pipeline = EscalationPipeline::new(EscalationPolicy::default(), test_epoch());
    pipeline.process_trigger(test_trigger(
        "t-red",
        EscalationTriggerKind::UserVisibleFailure,
        TriggerSeverity::Emergency,
    ));
    let bundle = pipeline.bundle_for_trigger("t-red").unwrap();
    // In emergency, boundary capture and state snapshot should be plaintext
    for entry in &bundle.entries {
        if matches!(
            entry.kind,
            BundleContentKind::FullBoundaryCapture
                | BundleContentKind::StateSnapshot
                | BundleContentKind::HeapProfile
        ) {
            assert_eq!(entry.redaction, RedactionTreatment::Plaintext);
        }
    }
}

#[test]
fn non_emergency_redaction_is_digest_for_sensitive() {
    let mut pipeline = EscalationPipeline::new(EscalationPolicy::default(), test_epoch());
    pipeline.process_trigger(test_trigger(
        "t-nered",
        EscalationTriggerKind::UserVisibleFailure,
        TriggerSeverity::Critical,
    ));
    let bundle = pipeline.bundle_for_trigger("t-nered").unwrap();
    for entry in &bundle.entries {
        if entry.kind == BundleContentKind::FullBoundaryCapture {
            assert_eq!(entry.redaction, RedactionTreatment::DigestOnly);
        }
    }
}


#[test]
fn policy_from_gates_config_keeps_defaults() {
    let cfg = GatesConfig { escalation_cost_budget_millionths: 1_234_567 };
    let p = EscalationPolicy::with_gates_config(&cfg);
    let d = EscalationPolicy::default();
    assert_eq!(p.cost_budget_millionths, 1_234_567);
    assert_eq!(p.auto_escalate_threshold, d.auto_escalate_threshold);
    assert_eq!(p.always_escalate, d.always_escalate);
    assert_eq!(p.always_suppress, d.always_suppress);
    assert_eq!(p.advisory_content, d.advisory_content);
    assert_eq!(p.emergency_content, d.emergency_content);
    assert_ne!(p.cost_budget_millionths, d.cost_budget_millionths);
}

#[test]
fn summary_counts_add_up_to_triggers() {
    let mut pipeline = EscalationPipeline::new(EscalationPolicy::default(), test_epoch());
    let sevs = [TriggerSeverity::Advisory, TriggerSeverity::Critical, TriggerSeverity::Emergency];
    for (i, kind) in EscalationTriggerKind::ALL.iter().enumerate() {
        pipeline.process_trigger(test_trigger(&format!("t-part-{i}"), *kind, sevs[i % 3]));
    }
    let s = pipeline.summary_report();
    assert_eq!(s.escalated_count + s.suppressed_count + s.deferred_count, s.total_triggers);
    assert_eq!(s.total_triggers, EscalationTriggerKind::ALL.len());
}

#[test]
fn remaining_budget_is_budget_less_bundle_costs() {
    let policy = EscalationPolicy::default();
    let budget = policy.cost_budget_millionths;
    let mut pipeline = EscalationPipeline::new(policy, test_epoch());
    for (i, kind) in EscalationTriggerKind::ALL.iter().enumerate() {
        pipeline.process_trigger(test_trigger(&format!("t-bud-{i}"), *kind, TriggerSeverity::Emergency));
    }
    let s = pipeline.summary_report();
    assert_eq!(s.remaining_budget_millionths, budget.saturating_sub(s.total_cost_millionths));
    assert_eq!(s.total_bundles, s.escalated_count);
}
