use franken_engine::foundation::{ContentHash, SecurityEpoch};
use franken_engine::hardware_board_claim_gate::{
    evaluate, evaluate_batch, evaluate_promotion, ClaimVerdict, DecisionReceipt,
    DegradationReason, GateConfig, GateSummary, HardwareClaim, HardwareClaimKind,
    PromotionDecision, RollbackRecord, BEAD_ID, COMPONENT, DEFAULT_DEGRADED_THRESHOLD,
    DEFAULT_FULL_TRANSPORT_THRESHOLD, DEFAULT_PARTIAL_TRANSPORT_THRESHOLD, MILLIONTHS, POLICY_ID,
    SCHEMA_VERSION,
};


fn epoch() -> SecurityEpoch {
    SecurityEpoch::from_raw(500)
}

fn confirmed_claim() -> HardwareClaim {
    HardwareClaim::new(
        HardwareClaimKind::Throughput,
        "cell-a",
        "cell-b",
        2_000_000,
        1_200_000,
        960_000, // 96% — above default 95% full threshold
        100,
        epoch(),
    )
}

fn downgraded_claim() -> HardwareClaim {
    HardwareClaim::new(
        HardwareClaimKind::Latency,
        "cell-a",
        "cell-c",
        1_500_000,
        1_100_000,
        800_000, // 80% — between 70% and 95%
        50,
        epoch(),
    )
}

fn requires_local_claim() -> HardwareClaim {
    HardwareClaim::new(
        HardwareClaimKind::MemoryEfficiency,
        "cell-a",
        "cell-d",
        1_000_000,
        1_050_000,
        400_000, // 40% — between 30% and 70%
        30,
        epoch(),
    )
}

fn unsupported_claim() -> HardwareClaim {
    HardwareClaim::new(
        HardwareClaimKind::StartupTime,
        "cell-a",
        "cell-e",
        800_000,
        1_300_000,
        100_000, // 10% — below 30%
        25,
        epoch(),
    )
}

fn insufficient_claim() -> HardwareClaim {
    HardwareClaim::new(
        HardwareClaimKind::TailLatency,
        "cell-a",
        "cell-f",
        900_000,
        1_150_000,
        950_000,
        5, // below default min_samples=10
        epoch(),
    )
}

// --- Constants ---

#[test]
fn test_schema_version_format() {
    assert!(SCHEMA_VERSION.starts_with("franken-engine."));
    assert!(SCHEMA_VERSION.contains("hardware-board-claim-gate"));
}

#[test]
fn test_bead_id_format() {
    assert!(BEAD_ID.starts_with("bd-"));
    assert_eq!(BEAD_ID, "bd-1lsy.7.16.3");
}

#[test]
fn test_component_name() {
    assert_eq!(COMPONENT, "hardware_board_claim_gate");
}

#[test]
fn test_policy_id() {
    assert!(POLICY_ID.starts_with("RGC-"));
    assert_eq!(POLICY_ID, "RGC-616C");
}

#[test]
fn test_millionths_constant() {
    assert_eq!(MILLIONTHS, 1_000_000);
}

#[test]
fn test_threshold_ordering() {
    assert!(DEFAULT_FULL_TRANSPORT_THRESHOLD > DEFAULT_PARTIAL_TRANSPORT_THRESHOLD);
    assert!(DEFAULT_PARTIAL_TRANSPORT_THRESHOLD > DEFAULT_DEGRADED_THRESHOLD);
    assert!(DEFAULT_DEGRADED_THRESHOLD > 0);
}

// --- HardwareClaimKind ---

#[test]
fn test_claim_kind_all_length() {
    assert_eq!(HardwareClaimKind::ALL.len(), 6);
}

#[test]
fn test_claim_kind_names_unique() {
    let names: std::collections::BTreeSet<&str> =
        HardwareClaimKind::ALL.iter().map(|k| k.as_str()).collect();
    assert_eq!(names.len(), HardwareClaimKind::ALL.len());
}

#[test]
fn test_claim_kind_display() {
    for k in HardwareClaimKind::ALL {
        assert_eq!(k.to_string(), k.as_str());
    }
}

// --- ClaimVerdict ---

#[test]
fn test_verdict_all_length() {
    assert_eq!(ClaimVerdict::ALL.len(), 5);
}

#[test]
fn test_verdict_names_unique() {
    let names: std::collections::BTreeSet<&str> =
        ClaimVerdict::ALL.iter().map(|v| v.as_str()).collect();
    assert_eq!(names.len(), ClaimVerdict::ALL.len());
}

#[test]
fn test_verdict_display() {
    for v in ClaimVerdict::ALL {
        assert_eq!(v.to_string(), v.as_str());
    }
}

#[test]
fn test_verdict_is_usable() {
    assert!(ClaimVerdict::Confirmed.is_usable());
    assert!(ClaimVerdict::Downgraded.is_usable());
    assert!(!ClaimVerdict::RequiresLocal.is_usable());
    assert!(!ClaimVerdict::Unsupported.is_usable());
    assert!(!ClaimVerdict::InsufficientEvidence.is_usable());
}

// --- PromotionDecision ---

#[test]
fn test_promotion_all_length() {
    assert_eq!(PromotionDecision::ALL.len(), 4);
}

#[test]
fn test_promotion_display() {
    for d in PromotionDecision::ALL {
        assert_eq!(d.to_string(), d.as_str());
    }
}

// --- DegradationReason ---

#[test]
fn test_degradation_all_length() {
    assert_eq!(DegradationReason::ALL.len(), 6);
}

#[test]
fn test_degradation_names_unique() {
    let names: std::collections::BTreeSet<&str> =
        DegradationReason::ALL.iter().map(|r| r.as_str()).collect();
    assert_eq!(names.len(), DegradationReason::ALL.len());
}

#[test]
fn test_degradation_display() {
    for r in DegradationReason::ALL {
        assert_eq!(r.to_string(), r.as_str());
    }
}

// --- HardwareClaim ---

#[test]
fn test_hardware_claim_construction() {
    let c = confirmed_claim();
    assert_eq!(c.kind, HardwareClaimKind::Throughput);
    assert_eq!(c.source_cell_id, "cell-a");
    assert_eq!(c.target_cell_id, "cell-b");
    assert_eq!(c.transport_residual, 960_000);
    assert_eq!(c.sample_count, 100);
}

#[test]
fn test_hardware_claim_content_hash_deterministic() {
    let c1 = confirmed_claim();
    let c2 = confirmed_claim();
    assert_eq!(c1.content_hash(), c2.content_hash());
}

#[test]
fn test_hardware_claim_content_hash_changes() {
    let c1 = confirmed_claim();
    let c2 = downgraded_claim();
    assert_ne!(c1.content_hash(), c2.content_hash());
}

#[test]
fn test_hardware_claim_is_same_cell() {
    let same = HardwareClaim::new(
        HardwareClaimKind::Throughput,
        "cell-a",
        "cell-a",
        1_000_000,
        1_000_000,
        1_000_000,
        100,
        epoch(),
    );
    assert!(same.is_same_cell());
    assert!(!confirmed_claim().is_same_cell());
}

#[test]
fn test_hardware_claim_display() {
    let c = confirmed_claim();
    let s = c.to_string();
    assert!(s.contains("throughput"));
    assert!(s.contains("cell-a"));
    assert!(s.contains("cell-b"));
}

// --- evaluate lifecycle ---

#[test]
fn test_evaluate_confirmed() {
    let config = GateConfig::default();
    let ev = evaluate(&confirmed_claim(), &config);
    assert_eq!(ev.verdict, ClaimVerdict::Confirmed);
    assert!(ev.is_supported());
    assert!(ev.explanation.contains("confirmed"));
}

#[test]
fn test_evaluate_downgraded() {
    let config = GateConfig::default();
    let ev = evaluate(&downgraded_claim(), &config);
    assert_eq!(ev.verdict, ClaimVerdict::Downgraded);
    assert!(ev.is_supported());
    assert!(ev.explanation.contains("downgraded"));
    assert!(!ev.degradation_reasons.is_empty());
}

#[test]
fn test_evaluate_requires_local() {
    let config = GateConfig::default();
    let ev = evaluate(&requires_local_claim(), &config);
    assert_eq!(ev.verdict, ClaimVerdict::RequiresLocal);
    assert!(!ev.is_supported());
    assert!(ev.explanation.contains("local measurement"));
}

#[test]
fn test_evaluate_unsupported() {
    let config = GateConfig::default();
    let ev = evaluate(&unsupported_claim(), &config);
    assert_eq!(ev.verdict, ClaimVerdict::Unsupported);
    assert!(!ev.is_supported());
    assert!(ev.explanation.contains("unsupported"));
}

#[test]
fn test_evaluate_insufficient_evidence() {
    let config = GateConfig::default();
    let ev = evaluate(&insufficient_claim(), &config);
    assert_eq!(ev.verdict, ClaimVerdict::InsufficientEvidence);
    assert!(!ev.is_supported());
    assert!(ev.explanation.contains("insufficient"));
}

#[test]
fn test_evaluate_evidence_hash_deterministic() {
    let config = GateConfig::default();
    let ev1 = evaluate(&confirmed_claim(), &config);
    let ev2 = evaluate(&confirmed_claim(), &config);
    assert_eq!(ev1.content_hash(), ev2.content_hash());
}

// --- evaluate_promotion lifecycle ---

#[test]
fn test_evaluate_promotion_confirmed_promotes() {
    let config = GateConfig::default();
    let ev = evaluate(&confirmed_claim(), &config);
    let pr = evaluate_promotion(&ev, &config);
    assert_eq!(pr.decision, PromotionDecision::Promote);
    assert!(pr.reason.contains("promotion"));
}

#[test]
fn test_evaluate_promotion_downgraded_holds() {
    let config = GateConfig::default();
    let ev = evaluate(&downgraded_claim(), &config);
    let pr = evaluate_promotion(&ev, &config);
    assert_eq!(pr.decision, PromotionDecision::Hold);
}

#[test]
fn test_evaluate_promotion_requires_local_measurement() {
    let config = GateConfig::default();
    let ev = evaluate(&requires_local_claim(), &config);
    let pr = evaluate_promotion(&ev, &config);
    assert_eq!(pr.decision, PromotionDecision::RequireFreshMeasurement);
}

#[test]
fn test_evaluate_promotion_unsupported_rollback() {
    let config = GateConfig::default();
    let ev = evaluate(&unsupported_claim(), &config);
    let pr = evaluate_promotion(&ev, &config);
    assert_eq!(pr.decision, PromotionDecision::Rollback);
}

#[test]
fn test_evaluate_promotion_insufficient_holds() {
    let config = GateConfig::default();
    let ev = evaluate(&insufficient_claim(), &config);
    let pr = evaluate_promotion(&ev, &config);
    assert_eq!(pr.decision, PromotionDecision::Hold);
}

#[test]
fn test_promotion_record_content_hash() {
    let config = GateConfig::default();
    let ev = evaluate(&confirmed_claim(), &config);
    let pr = evaluate_promotion(&ev, &config);
    let h1 = pr.content_hash();
    let h2 = pr.content_hash();
    assert_eq!(h1, h2);
}

#[test]
fn test_promotion_record_display() {
    let config = GateConfig::default();
    let ev = evaluate(&confirmed_claim(), &config);
    let pr = evaluate_promotion(&ev, &config);
    let s = pr.to_string();
    assert!(s.contains("promotion"));
    assert!(s.contains("promote"));
}

// --- RollbackRecord ---

#[test]
fn test_rollback_record_creation() {
    let rb = RollbackRecord::new(
        "claim-1",
        ClaimVerdict::Downgraded,
        ClaimVerdict::Unsupported,
        "regression detected",
        epoch(),
    );
    assert_eq!(rb.claim_id, "claim-1");
    assert_eq!(rb.original_verdict, ClaimVerdict::Downgraded);
    assert_eq!(rb.rollback_verdict, ClaimVerdict::Unsupported);
    assert_eq!(rb.trigger, "regression detected");
}

#[test]
fn test_rollback_record_hash_deterministic() {
    let rb1 = RollbackRecord::new(
        "claim-1",
        ClaimVerdict::Confirmed,
        ClaimVerdict::RequiresLocal,
        "drift",
        epoch(),
    );
    let rb2 = RollbackRecord::new(
        "claim-1",
        ClaimVerdict::Confirmed,
        ClaimVerdict::RequiresLocal,
        "drift",
        epoch(),
    );
    assert_eq!(rb1.receipt_hash, rb2.receipt_hash);
}

#[test]
fn test_rollback_record_display() {
    let rb = RollbackRecord::new(
        "claim-2",
        ClaimVerdict::Confirmed,
        ClaimVerdict::Unsupported,
        "arch change",
        epoch(),
    );
    let s = rb.to_string();
    assert!(s.contains("rollback"));
    assert!(s.contains("claim-2"));
}

// --- GateConfig ---

#[test]
fn test_gate_config_default() {
    let config = GateConfig::default();
    assert_eq!(config.full_transport_threshold, 950_000);
    assert_eq!(config.partial_transport_threshold, 700_000);
    assert_eq!(config.degraded_threshold, 300_000);
    assert_eq!(config.min_samples, 10);
    assert_eq!(config.rollback_regression_threshold, 50_000);
}

#[test]
fn test_gate_config_permissive() {
    let config = GateConfig::permissive();
    assert_eq!(config.full_transport_threshold, 0);
    assert_eq!(config.min_samples, 0);
}

#[test]
fn test_gate_config_strict() {
    let config = GateConfig::strict();
    assert!(config.full_transport_threshold > GateConfig::default().full_transport_threshold);
    assert!(config.min_samples > GateConfig::default().min_samples);
}

// --- evaluate_batch ---

#[test]
fn test_evaluate_batch_mixed() {
    let config = GateConfig::default();
    let claims = vec![
        confirmed_claim(),
        downgraded_claim(),
        requires_local_claim(),
        unsupported_claim(),
        insufficient_claim(),
    ];
    let (evidence, summary) = evaluate_batch(&claims, &config);
    assert_eq!(evidence.len(), 5);
    assert_eq!(summary.total_claims, 5);
    assert_eq!(summary.confirmed, 1);
    assert_eq!(summary.downgraded, 1);
    assert_eq!(summary.requires_local, 1);
    assert_eq!(summary.unsupported, 1);
    assert_eq!(summary.insufficient, 1);
    // pass_rate = 2/5 = 400_000
    assert_eq!(summary.pass_rate, 400_000);
}

#[test]
fn test_evaluate_batch_all_confirmed() {
    let config = GateConfig::default();
    let claims = vec![confirmed_claim(), confirmed_claim(), confirmed_claim()];
    let (_, summary) = evaluate_batch(&claims, &config);
    assert_eq!(summary.confirmed, 3);
    assert!(summary.all_passed());
    assert_eq!(summary.pass_rate, MILLIONTHS);
}

#[test]
fn test_evaluate_batch_empty() {
    let config = GateConfig::default();
    let (evidence, summary) = evaluate_batch(&[], &config);
    assert!(evidence.is_empty());
    assert_eq!(summary.total_claims, 0);
    assert_eq!(summary.pass_rate, 0);
    assert!(!summary.all_passed());
}

// --- GateSummary ---

#[test]
fn test_gate_summary_has_unsupported() {
    let summary = GateSummary::from_verdicts(&[
        ClaimVerdict::Confirmed,
        ClaimVerdict::Unsupported,
    ]);
    assert!(summary.has_unsupported());
}

#[test]
fn test_gate_summary_content_hash_deterministic() {
    let s1 = GateSummary::from_verdicts(&[ClaimVerdict::Confirmed, ClaimVerdict::Downgraded]);
    let s2 = GateSummary::from_verdicts(&[ClaimVerdict::Confirmed, ClaimVerdict::Downgraded]);
    assert_eq!(s1.content_hash(), s2.content_hash());
}

#[test]
fn test_gate_summary_display() {
    let s = GateSummary::from_verdicts(&[ClaimVerdict::Confirmed]);
    let d = s.to_string();
    assert!(d.contains("claims=1"));
    assert!(d.contains("confirmed=1"));
}

#[test]
fn test_gate_summary_pass_rate_all_confirmed() {
    let s = GateSummary::from_verdicts(&[ClaimVerdict::Confirmed; 4]);
    assert_eq!(s.pass_rate, MILLIONTHS);
}

#[test]
fn test_gate_summary_pass_rate_none() {
    let s = GateSummary::from_verdicts(&[ClaimVerdict::Unsupported; 3]);
    assert_eq!(s.pass_rate, 0);
    assert!(!s.all_passed());
}

// --- DecisionReceipt ---

#[test]
fn test_decision_receipt_creation() {
    let claim_hash = ContentHash::compute(b"test-claim");
    let receipt = DecisionReceipt::new(epoch(), ClaimVerdict::Confirmed, claim_hash.clone());
    assert_eq!(receipt.component, COMPONENT);
    assert_eq!(receipt.verdict, ClaimVerdict::Confirmed);
    assert_eq!(receipt.claim_hash, claim_hash);
}

#[test]
fn test_decision_receipt_hash_deterministic() {
    let claim_hash = ContentHash::compute(b"claim-x");
    let r1 = DecisionReceipt::new(epoch(), ClaimVerdict::Downgraded, claim_hash.clone());
    let r2 = DecisionReceipt::new(epoch(), ClaimVerdict::Downgraded, claim_hash);
    assert_eq!(r1.receipt_hash, r2.receipt_hash);
}

#[test]
fn test_decision_receipt_different_verdicts_different_hashes() {
    let claim_hash = ContentHash::compute(b"claim-y");
    let r1 = DecisionReceipt::new(epoch(), ClaimVerdict::Confirmed, claim_hash.clone());
    let r2 = DecisionReceipt::new(epoch(), ClaimVerdict::Unsupported, claim_hash);
    assert_ne!(r1.receipt_hash, r2.receipt_hash);
}

#[test]
fn test_decision_receipt_display() {
    let receipt = DecisionReceipt::new(
        epoch(),
        ClaimVerdict::RequiresLocal,
        ContentHash::compute(b"abc"),
    );
    let s = receipt.to_string();
    assert!(s.contains("receipt"));
    assert!(s.contains("requires_local"));
}

// --- Edge cases ---

#[test]
fn test_zero_residual_unsupported() {
    let claim = HardwareClaim::new(
        HardwareClaimKind::EnergyEfficiency,
        "src",
        "dst",
        1_000_000,
        1_100_000,
        0, // zero residual
        100,
        epoch(),
    );
    let config = GateConfig::default();
    let ev = evaluate(&claim, &config);
    assert_eq!(ev.verdict, ClaimVerdict::Unsupported);
}

#[test]
fn test_max_residual_confirmed() {
    let claim = HardwareClaim::new(
        HardwareClaimKind::Throughput,
        "src",
        "dst",
        1_000_000,
        1_500_000,
        MILLIONTHS, // 100% residual
        100,
        epoch(),
    );
    let config = GateConfig::default();
    let ev = evaluate(&claim, &config);
    assert_eq!(ev.verdict, ClaimVerdict::Confirmed);
}

#[test]
fn test_boundary_full_threshold_exact() {
    let claim = HardwareClaim::new(
        HardwareClaimKind::Latency,
        "src",
        "dst",
        1_000_000,
        1_050_000,
        950_000, // exactly at full threshold
        100,
        epoch(),
    );
    let config = GateConfig::default();
    let ev = evaluate(&claim, &config);
    assert_eq!(ev.verdict, ClaimVerdict::Confirmed);
}

#[test]
fn test_boundary_just_below_full_threshold() {
    let claim = HardwareClaim::new(
        HardwareClaimKind::Latency,
        "src",
        "dst",
        1_000_000,
        1_050_000,
        949_999, // one below full threshold
        100,
        epoch(),
    );
    let config = GateConfig::default();
    let ev = evaluate(&claim, &config);
    assert_eq!(ev.verdict, ClaimVerdict::Downgraded);
}

#[test]
fn test_boundary_partial_threshold_exact() {
    let claim = HardwareClaim::new(
        HardwareClaimKind::MemoryEfficiency,
        "src",
        "dst",
        1_000_000,
        1_050_000,
        700_000, // exactly at partial threshold
        100,
        epoch(),
    );
    let config = GateConfig::default();
    let ev = evaluate(&claim, &config);
    assert_eq!(ev.verdict, ClaimVerdict::Downgraded);
}

#[test]
fn test_boundary_degraded_threshold_exact() {
    let claim = HardwareClaim::new(
        HardwareClaimKind::TailLatency,
        "src",
        "dst",
        1_000_000,
        1_050_000,
        300_000, // exactly at degraded threshold
        100,
        epoch(),
    );
    let config = GateConfig::default();
    let ev = evaluate(&claim, &config);
    assert_eq!(ev.verdict, ClaimVerdict::RequiresLocal);
}

#[test]
fn test_custom_config_thresholds() {
    let config = GateConfig {
        full_transport_threshold: 500_000,
        partial_transport_threshold: 300_000,
        degraded_threshold: 100_000,
        min_samples: 5,
        rollback_regression_threshold: 10_000,
    };
    // Claim with residual 400_000 => between 300k and 500k => Downgraded
    let claim = HardwareClaim::new(
        HardwareClaimKind::Throughput,
        "x",
        "y",
        1_000_000,
        1_200_000,
        400_000,
        10,
        epoch(),
    );
    let ev = evaluate(&claim, &config);
    assert_eq!(ev.verdict, ClaimVerdict::Downgraded);
}

#[test]
fn test_claim_evidence_display() {
    let config = GateConfig::default();
    let ev = evaluate(&confirmed_claim(), &config);
    let s = ev.to_string();
    assert!(s.contains("confirmed"));
}


// --- Laws on concrete values ---

fn claim_with_residual(residual: u64) -> HardwareClaim {
    HardwareClaim::new(
        HardwareClaimKind::Throughput,
        "cell-a",
        "cell-z",
        2_000_000,
        1_200_000,
        residual,
        100,
        epoch(),
    )
}

#[test]
fn verdict_never_weakens_as_residual_grows() {
    let cfg = GateConfig::default_config();
    let order = |v: ClaimVerdict| match v {
        ClaimVerdict::Unsupported => 0,
        ClaimVerdict::RequiresLocal => 1,
        ClaimVerdict::Downgraded => 2,
        ClaimVerdict::Confirmed => 3,
        ClaimVerdict::InsufficientEvidence => -1,
    };
    let mut last = -1;
    for r in [0u64, 100_000, 400_000, 500_000, 700_000, 900_000, 950_000, 1_000_000] {
        let s = order(evaluate(&claim_with_residual(r), &cfg).verdict);
        assert!(s >= last);
        last = s;
    }
    // Thresholds out of order: the verdicts still never weaken.
    let odd = GateConfig {
        full_transport_threshold: 200_000,
        partial_transport_threshold: 600_000,
        degraded_threshold: 400_000,
        min_samples: 5,
        rollback_regression_threshold: 10_000,
    };
    let mut last = -1;
    for r in [0u64, 100_000, 200_000, 300_000, 400_000, 500_000, 600_000, 1_000_000] {
        let s = order(evaluate(&claim_with_residual(r), &odd).verdict);
        assert!(s >= last);
        last = s;
    }
}

#[test]
fn promotion_only_with_transport_evidence() {
    let cfg = GateConfig::default_config();
    for r in [0u64, 400_000, 600_000, 800_000, 900_000, 930_000, 960_000] {
        let evidence = evaluate(&claim_with_residual(r), &cfg);
        let record = evaluate_promotion(&evidence, &cfg);
        if record.decision == PromotionDecision::Promote {
            assert!(
                r >= cfg.full_transport_threshold
                    || (r >= cfg.partial_transport_threshold
                        && r + cfg.rollback_regression_threshold >= cfg.full_transport_threshold)
            );
        }
    }
}

#[test]
fn summary_counts_partition_total() {
    let claims = vec![
        confirmed_claim(),
        downgraded_claim(),
        requires_local_claim(),
        unsupported_claim(),
        insufficient_claim(),
        confirmed_claim(),
    ];
    let (_, s) = evaluate_batch(&claims, &GateConfig::default_config());
    assert_eq!(
        s.confirmed + s.downgraded + s.requires_local + s.unsupported + s.insufficient,
        s.total_claims
    );
    assert!(!s.all_passed());
    let (_, ok) = evaluate_batch(&[confirmed_claim(), downgraded_claim()], &GateConfig::default_config());
    assert!(ok.all_passed());
}

#[test]
fn summary_ignores_claim_order() {
    let a = [ClaimVerdict::Confirmed, ClaimVerdict::Unsupported, ClaimVerdict::Downgraded];
    let b = [ClaimVerdict::Downgraded, ClaimVerdict::Confirmed, ClaimVerdict::Unsupported];
    assert_eq!(GateSummary::from_verdicts(&a), GateSummary::from_verdicts(&b));
    let s = GateSummary::from_verdicts(&a);
    assert_eq!(s.total_claims, 3);
    assert_eq!(s.pass_rate, 666_666);
}
