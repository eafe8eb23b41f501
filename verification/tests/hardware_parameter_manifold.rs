use franken_engine::foundation::{ContentHash, SecurityEpoch};
use franken_engine::hardware_parameter_manifold::{
    braced_list, default_hardware_axes, HardwareAxis, HardwareAxisDomain, HardwareFingerprint, ObligationGraph,
    ObligationReport, ObligationStatus, Obligation, OptimizationQuestion, SymmetryClass,
    SymmetryReason, SymmetryRefusal, BEAD_ID, COMPONENT, DEFAULT_SIMILARITY_THRESHOLD,
    MAX_CLASS_SIZE, MAX_HARDWARE_AXES, MILLION, POLICY_ID, SCHEMA_VERSION,
};
use franken_engine::strmap::{StrMap, StrSet};
use std::collections::BTreeSet;


fn epoch() -> SecurityEpoch {
    SecurityEpoch::from_raw(500)
}

fn sample_axis() -> HardwareAxis {
    HardwareAxis::new(
        "core_count",
        HardwareAxisDomain::Microarch,
        1_000_000,
        128_000_000,
        true,
        "Core count",
    )
}

fn sample_fingerprint(id: &str, core_count: u64, mem_bw: u64) -> HardwareFingerprint {
    let mut values = StrMap::new();
    values.insert("core_count".to_string(), core_count);
    values.insert("mem_bandwidth_gbps".to_string(), mem_bw);
    HardwareFingerprint::new(id, &format!("hw-{}", id), values)
}

fn sample_question(id: &str) -> OptimizationQuestion {
    OptimizationQuestion::new(
        id,
        &format!("Does {} improve throughput?", id),
        StrSet::from_strs(&["core_count"]),
    )
}

fn sample_graph() -> ObligationGraph {
    let mut g = ObligationGraph::with_defaults();
    for axis in default_hardware_axes() {
        g.add_axis(axis);
    }
    g.add_fingerprint(sample_fingerprint("fp1", 8_000_000, 50_000_000));
    g.add_fingerprint(sample_fingerprint("fp2", 8_500_000, 52_000_000));
    g.add_fingerprint(sample_fingerprint("fp3", 64_000_000, 200_000_000));
    g.add_question(sample_question("q-tiering"));
    g.add_question(sample_question("q-gc"));
    g
}

// --- Constants ---

#[test]
fn hardware_parameter_manifold_schema_version_format() {
    assert!(SCHEMA_VERSION.starts_with("franken-engine."));
    assert!(!SCHEMA_VERSION.is_empty());
}

#[test]
fn hardware_parameter_manifold_component_name() {
    assert_eq!(COMPONENT, "hardware_parameter_manifold");
}

#[test]
fn hardware_parameter_manifold_bead_id_format() {
    assert!(BEAD_ID.starts_with("bd-"));
}

#[test]
fn hardware_parameter_manifold_policy_id_format() {
    assert!(POLICY_ID.starts_with("RGC-"));
}

#[test]
fn max_axes_positive() {
    let mha = MAX_HARDWARE_AXES;
    assert!(mha > 0);
}

#[test]
fn max_class_size_positive() {
    let mcs = MAX_CLASS_SIZE;
    assert!(mcs > 0);
}

#[test]
fn default_threshold_range() {
    let dst = DEFAULT_SIMILARITY_THRESHOLD;
    assert!(dst > 0);
    assert!(dst < MILLION);
}

// --- HardwareAxisDomain ---

#[test]
fn domain_all_length() {
    assert_eq!(HardwareAxisDomain::ALL.len(), 5);
}

#[test]
fn domain_names_unique() {
    let names: BTreeSet<&str> = HardwareAxisDomain::ALL.iter().map(|d| d.as_str()).collect();
    assert_eq!(names.len(), HardwareAxisDomain::ALL.len());
}

#[test]
fn domain_display_matches_as_str() {
    for d in HardwareAxisDomain::ALL {
        assert_eq!(d.to_string(), d.as_str());
    }
}

// --- HardwareAxis ---

#[test]
fn axis_range_span() {
    let a = sample_axis();
    assert_eq!(a.range_span(), 127_000_000);
}

#[test]
fn axis_normalize_min() {
    let a = sample_axis();
    assert_eq!(a.normalize(1_000_000), Some(0));
}

#[test]
fn axis_normalize_max() {
    let a = sample_axis();
    assert_eq!(a.normalize(128_000_000), Some(MILLION));
}

#[test]
fn axis_normalize_mid() {
    let a = sample_axis();
    let mid = a.normalize(64_500_000).unwrap();
    assert!(mid > 0 && mid < MILLION);
}

#[test]
fn axis_normalize_below_min_clamps() {
    let a = sample_axis();
    assert_eq!(a.normalize(0), Some(0));
}

#[test]
fn axis_normalize_above_max_clamps() {
    let a = sample_axis();
    assert_eq!(a.normalize(999_000_000), Some(MILLION));
}

#[test]
fn axis_normalize_zero_range() {
    let a = HardwareAxis::new("x", HardwareAxisDomain::Microarch, 10, 10, false, "");
    assert_eq!(a.normalize(10), None);
}

#[test]
fn axis_content_hash_deterministic() {
    let a1 = sample_axis();
    let a2 = sample_axis();
    assert_eq!(a1.content_hash(), a2.content_hash());
}

// --- HardwareFingerprint ---

#[test]
fn fingerprint_creation() {
    let fp = sample_fingerprint("fp1", 8_000_000, 50_000_000);
    assert_eq!(fp.id, "fp1");
    assert_eq!(fp.axis_count(), 2);
    assert_eq!(fp.get("core_count"), Some(8_000_000));
}

#[test]
fn fingerprint_missing_axis() {
    let fp = sample_fingerprint("fp1", 8_000_000, 50_000_000);
    assert_eq!(fp.get("nonexistent"), None);
}

#[test]
fn fingerprint_hash_deterministic() {
    let fp1 = sample_fingerprint("fp1", 8_000_000, 50_000_000);
    let fp2 = sample_fingerprint("fp1", 8_000_000, 50_000_000);
    assert_eq!(fp1.content_hash, fp2.content_hash);
}

#[test]
fn fingerprint_different_values_different_hash() {
    let fp1 = sample_fingerprint("fp1", 8_000_000, 50_000_000);
    let fp2 = sample_fingerprint("fp1", 16_000_000, 50_000_000);
    assert_ne!(fp1.content_hash, fp2.content_hash);
}

// --- SymmetryReason ---

#[test]
fn symmetry_reason_tags_unique() {
    let reasons = [
        SymmetryReason::WithinThreshold {
            max_distance_millionths: 1000,
            threshold_millionths: 50_000,
        },
        SymmetryReason::ExpertAnnotation {
            note: "same gen".into(),
        },
        SymmetryReason::EmpiricallyVerified {
            measurement_hash: ContentHash::compute(b"test"),
        },
    ];
    let tags: BTreeSet<&str> = reasons.iter().map(|r| r.tag()).collect();
    assert_eq!(tags.len(), 3);
}

#[test]
fn symmetry_reason_display() {
    let r = SymmetryReason::WithinThreshold {
        max_distance_millionths: 1000,
        threshold_millionths: 50_000,
    };
    let s = r.to_string();
    assert!(s.contains("1000"));
    assert!(s.contains("50000"));
}

// --- SymmetryRefusal ---

#[test]
fn symmetry_refusal_tags_unique() {
    let refusals: Vec<SymmetryRefusal> = vec![
        SymmetryRefusal::ExceedsThreshold {
            axis_key: "x".into(),
            distance_millionths: 100_000,
            threshold_millionths: 50_000,
        },
        SymmetryRefusal::IncomparableAxes {
            missing_keys: StrSet::new(),
        },
        SymmetryRefusal::SimdMismatch {
            left_level: "avx2".into(),
            right_level: "neon".into(),
        },
        SymmetryRefusal::PlatformMismatch { detail: "x".into() },
    ];
    let tags: BTreeSet<&str> = refusals.iter().map(|r| r.tag()).collect();
    assert_eq!(tags.len(), 4);
}

#[test]
fn symmetry_refusal_display() {
    let r = SymmetryRefusal::ExceedsThreshold {
        axis_key: "core_count".into(),
        distance_millionths: 100_000,
        threshold_millionths: 50_000,
    };
    let s = r.to_string();
    assert!(s.contains("core_count"));
}

// --- SymmetryClass ---

#[test]
fn symmetry_class_creation() {
    let members = StrSet::from_strs(&["fp1", "fp2"]);
    let axes = StrSet::from_strs(&["core_count"]);
    let class = SymmetryClass::new(
        "class1",
        "fp1",
        members,
        axes,
        SymmetryReason::WithinThreshold {
            max_distance_millionths: 1000,
            threshold_millionths: 50_000,
        },
    );
    assert_eq!(class.size(), 2);
    assert!(class.contains("fp1"));
    assert!(class.contains("fp2"));
    assert!(!class.contains("fp3"));
    assert!(!class.is_trivial());
}

#[test]
fn symmetry_class_trivial() {
    let members = StrSet::from_strs(&["fp1"]);
    let class = SymmetryClass::new(
        "c1",
        "fp1",
        members,
        StrSet::new(),
        SymmetryReason::ExpertAnnotation {
            note: "solo".into(),
        },
    );
    assert!(class.is_trivial());
}

#[test]
fn symmetry_class_hash_deterministic() {
    let members = StrSet::from_strs(&["fp1", "fp2"]);
    let axes = StrSet::from_strs(&["core_count"]);
    let c1 = SymmetryClass::new(
        "c1",
        "fp1",
        members.clone(),
        axes.clone(),
        SymmetryReason::WithinThreshold {
            max_distance_millionths: 1000,
            threshold_millionths: 50_000,
        },
    );
    let c2 = SymmetryClass::new(
        "c1",
        "fp1",
        members,
        axes,
        SymmetryReason::WithinThreshold {
            max_distance_millionths: 1000,
            threshold_millionths: 50_000,
        },
    );
    assert_eq!(c1.content_hash, c2.content_hash);
}

// --- ObligationStatus ---

#[test]
fn obligation_status_all_length() {
    assert_eq!(ObligationStatus::ALL.len(), 5);
}

#[test]
fn obligation_status_names_unique() {
    let names: BTreeSet<&str> = ObligationStatus::ALL.iter().map(|s| s.as_str()).collect();
    assert_eq!(names.len(), ObligationStatus::ALL.len());
}

#[test]
fn obligation_status_pending_not_resolved() {
    assert!(!ObligationStatus::Pending.is_resolved());
}

#[test]
fn obligation_status_discharged_resolved() {
    assert!(ObligationStatus::DischargedDirect.is_resolved());
    assert!(ObligationStatus::DischargedByTransport.is_resolved());
}

#[test]
fn obligation_status_discharged_check() {
    assert!(ObligationStatus::DischargedDirect.is_discharged());
    assert!(ObligationStatus::DischargedByTransport.is_discharged());
    assert!(!ObligationStatus::Pending.is_discharged());
    assert!(!ObligationStatus::Infeasible.is_discharged());
    assert!(!ObligationStatus::Waived.is_discharged());
}

#[test]
fn obligation_status_display() {
    for s in ObligationStatus::ALL {
        assert!(!s.to_string().is_empty());
    }
}

// --- Obligation ---

#[test]
fn obligation_pending() {
    let o = Obligation::pending("fp1", "q1");
    assert_eq!(o.status, ObligationStatus::Pending);
    assert!(o.transport_source.is_none());
}

#[test]
fn obligation_discharge_direct() {
    let mut o = Obligation::pending("fp1", "q1");
    o.discharge_direct();
    assert_eq!(o.status, ObligationStatus::DischargedDirect);
}

#[test]
fn obligation_discharge_transport() {
    let mut o = Obligation::pending("fp2", "q1");
    o.discharge_by_transport("fp1", "class1");
    assert_eq!(o.status, ObligationStatus::DischargedByTransport);
    assert_eq!(o.transport_source.as_deref(), Some("fp1"));
    assert_eq!(o.transport_class_id.as_deref(), Some("class1"));
}

#[test]
fn obligation_mark_infeasible() {
    let mut o = Obligation::pending("fp1", "q1");
    o.mark_infeasible();
    assert_eq!(o.status, ObligationStatus::Infeasible);
}

#[test]
fn obligation_waive() {
    let mut o = Obligation::pending("fp1", "q1");
    o.waive();
    assert_eq!(o.status, ObligationStatus::Waived);
}

// --- ObligationGraph ---

#[test]
fn graph_empty() {
    let g = ObligationGraph::with_defaults();
    assert_eq!(g.obligation_count(), 0);
    assert_eq!(g.pending_count(), 0);
    assert_eq!(g.discharged_count(), 0);
    assert_eq!(g.coverage_millionths(), 0);
}

#[test]
fn graph_generate_obligations() {
    let mut g = sample_graph();
    g.generate_obligations();
    // 3 fingerprints × 2 questions = 6
    assert_eq!(g.obligation_count(), 6);
    assert_eq!(g.pending_count(), 6);
}

#[test]
fn graph_discharge_direct() {
    let mut g = sample_graph();
    g.generate_obligations();
    g.find_obligation_mut("fp1", "q-tiering")
        .unwrap()
        .discharge_direct();
    assert_eq!(g.pending_count(), 5);
    assert_eq!(g.discharged_count(), 1);
}

#[test]
fn graph_coverage_partial() {
    let mut g = sample_graph();
    g.generate_obligations();
    g.find_obligation_mut("fp1", "q-tiering")
        .unwrap()
        .discharge_direct();
    g.find_obligation_mut("fp1", "q-gc")
        .unwrap()
        .discharge_direct();
    // 2 of 6 resolved = 333_333 (one-third)
    let cov = g.coverage_millionths();
    assert!(cov > 330_000 && cov < 340_000);
}

#[test]
fn graph_coverage_full() {
    let mut g = sample_graph();
    g.generate_obligations();
    for o in &mut g.obligations {
        o.discharge_direct();
    }
    assert_eq!(g.coverage_millionths(), MILLION);
}

#[test]
fn graph_symmetry_reduction() {
    let mut g = sample_graph();
    let members = StrSet::from_strs(&["fp1", "fp2"]);
    g.add_symmetry_class(SymmetryClass::new(
        "class1",
        "fp1",
        members,
        StrSet::from_strs(&["core_count"]),
        SymmetryReason::WithinThreshold {
            max_distance_millionths: 1000,
            threshold_millionths: 50_000,
        },
    ));
    g.generate_obligations();
    // Discharge fp1's obligations directly
    g.find_obligation_mut("fp1", "q-tiering")
        .unwrap()
        .discharge_direct();
    g.find_obligation_mut("fp1", "q-gc")
        .unwrap()
        .discharge_direct();
    // Now reduce by symmetry
    g.reduce_by_symmetry();
    // fp2's obligations should be discharged by transport
    let o_fp2_tier = g.find_obligation("fp2", "q-tiering").unwrap();
    assert_eq!(o_fp2_tier.status, ObligationStatus::DischargedByTransport);
    assert_eq!(o_fp2_tier.transport_source.as_deref(), Some("fp1"));
    let o_fp2_gc = g.find_obligation("fp2", "q-gc").unwrap();
    assert_eq!(o_fp2_gc.status, ObligationStatus::DischargedByTransport);
    // fp3 should still be pending (not in the class)
    assert_eq!(
        g.find_obligation("fp3", "q-tiering").unwrap().status,
        ObligationStatus::Pending
    );
}

#[test]
fn graph_transport_reduction_ratio() {
    let mut g = sample_graph();
    let members = StrSet::from_strs(&["fp1", "fp2"]);
    g.add_symmetry_class(SymmetryClass::new(
        "class1",
        "fp1",
        members,
        StrSet::new(),
        SymmetryReason::ExpertAnnotation {
            note: "test".into(),
        },
    ));
    g.generate_obligations();
    g.find_obligation_mut("fp1", "q-tiering")
        .unwrap()
        .discharge_direct();
    g.find_obligation_mut("fp1", "q-gc")
        .unwrap()
        .discharge_direct();
    g.reduce_by_symmetry();
    // 4 discharged total: 2 direct + 2 transport → ratio = 500_000
    assert_eq!(g.transport_reduction_millionths(), 500_000);
}

#[test]
fn graph_chebyshev_similar() {
    let g = sample_graph();
    let dist = g.chebyshev_distance("fp1", "fp2").unwrap();
    // fp1 and fp2 have similar values
    assert!(dist < 50_000);
}

#[test]
fn graph_chebyshev_different() {
    let g = sample_graph();
    let dist = g.chebyshev_distance("fp1", "fp3").unwrap();
    // fp1 and fp3 have very different values
    assert!(dist > 100_000);
}

#[test]
fn graph_chebyshev_unknown_fp() {
    let g = sample_graph();
    assert!(g.chebyshev_distance("fp1", "unknown").is_none());
}

#[test]
fn graph_check_symmetry_within() {
    let g = sample_graph();
    let result = g.check_symmetry("fp1", "fp2");
    assert!(result.is_ok());
}

#[test]
fn graph_check_symmetry_exceeds() {
    let g = sample_graph();
    let result = g.check_symmetry("fp1", "fp3");
    assert!(result.is_err());
}

#[test]
fn graph_check_symmetry_unknown() {
    let g = sample_graph();
    let result = g.check_symmetry("fp1", "unknown");
    assert!(result.is_err());
}

// --- default_hardware_axes ---

#[test]
fn default_axes_count() {
    let axes = default_hardware_axes();
    assert_eq!(axes.len(), 12);
}

#[test]
fn default_axes_keys_unique() {
    let axes = default_hardware_axes();
    let keys: BTreeSet<&str> = axes.iter().map(|a| a.key.as_str()).collect();
    assert_eq!(keys.len(), axes.len());
}

#[test]
fn default_axes_all_domains_present() {
    let axes = default_hardware_axes();
    let domains: BTreeSet<HardwareAxisDomain> = axes.iter().map(|a| a.domain).collect();
    assert_eq!(domains.len(), HardwareAxisDomain::ALL.len());
}

#[test]
fn default_axes_at_least_two_required() {
    let axes = default_hardware_axes();
    let required_count = axes.iter().filter(|a| a.required).count();
    assert!(required_count >= 2);
}

#[test]
fn default_axes_valid_ranges() {
    for axis in default_hardware_axes() {
        assert!(
            axis.max_millionths >= axis.min_millionths,
            "axis {} has inverted range",
            axis.key
        );
    }
}


// --- ObligationReport ---

#[test]
fn report_empty_graph() {
    let g = ObligationGraph::with_defaults();
    let r = ObligationReport::from_graph(&g, epoch());
    assert_eq!(r.total_obligations, 0);
    assert!(r.is_complete());
    assert_eq!(r.schema_version, SCHEMA_VERSION);
}

#[test]
fn report_partial() {
    let mut g = sample_graph();
    g.generate_obligations();
    g.find_obligation_mut("fp1", "q-tiering")
        .unwrap()
        .discharge_direct();
    let r = ObligationReport::from_graph(&g, epoch());
    assert_eq!(r.total_obligations, 6);
    assert_eq!(r.pending_obligations, 5);
    assert_eq!(r.direct_discharges, 1);
    assert!(!r.is_complete());
}

#[test]
fn report_with_transport() {
    let mut g = sample_graph();
    let members = StrSet::from_strs(&["fp1", "fp2"]);
    g.add_symmetry_class(SymmetryClass::new(
        "class1",
        "fp1",
        members,
        StrSet::new(),
        SymmetryReason::ExpertAnnotation {
            note: "test".into(),
        },
    ));
    g.generate_obligations();
    g.find_obligation_mut("fp1", "q-tiering")
        .unwrap()
        .discharge_direct();
    g.find_obligation_mut("fp1", "q-gc")
        .unwrap()
        .discharge_direct();
    g.reduce_by_symmetry();
    let r = ObligationReport::from_graph(&g, epoch());
    assert_eq!(r.direct_discharges, 2);
    assert_eq!(r.transport_discharges, 2);
    assert_eq!(r.nontrivial_class_count, 1);
}

#[test]
fn report_hash_deterministic() {
    let g = sample_graph();
    let r1 = ObligationReport::from_graph(&g, epoch());
    let r2 = ObligationReport::from_graph(&g, epoch());
    assert_eq!(r1.content_hash, r2.content_hash);
}

#[test]
fn chebyshev_distance_is_symmetric() {
    let g = sample_graph();
    assert_eq!(g.chebyshev_distance("fp1", "fp3"), g.chebyshev_distance("fp3", "fp1"));
    assert_eq!(g.chebyshev_distance("fp2", "fp1"), g.chebyshev_distance("fp1", "fp2"));
}

#[test]
fn transport_needs_direct_representative_evidence() {
    let mut g = sample_graph();
    let members = StrSet::from_strs(&["fp1", "fp2"]);
    g.add_symmetry_class(SymmetryClass::new(
        "class1",
        "fp1",
        members,
        StrSet::new(),
        SymmetryReason::ExpertAnnotation {
            note: "test".into(),
        },
    ));
    g.generate_obligations();
    // Nothing discharged directly yet: reduction changes nothing.
    g.reduce_by_symmetry();
    assert_eq!(g.transport_count(), 0);
    g.find_obligation_mut("fp1", "q-gc").unwrap().discharge_direct();
    g.reduce_by_symmetry();
    assert_eq!(g.transport_count(), 1);
    let o = g.find_obligation("fp2", "q-gc").unwrap();
    assert_eq!(o.status, ObligationStatus::DischargedByTransport);
    assert_eq!(o.transport_source.as_deref(), Some("fp1"));
    assert_eq!(g.find_obligation("fp2", "q-tiering").unwrap().status, ObligationStatus::Pending);
}

#[test]
fn incomparable_axes_display_quotes_keys() {
    let r = SymmetryRefusal::IncomparableAxes {
        missing_keys: StrSet::from_strs(&["simd_width", "cache\"line"]),
    };
    assert_eq!(r.to_string(), "missing axes: {\"cache\\\"line\", \"simd_width\"}");
    let empty = SymmetryRefusal::IncomparableAxes { missing_keys: StrSet::new() };
    assert_eq!(empty.to_string(), "missing axes: {}");
}

#[test]
fn braced_list_joins_parts() {
    let parts = vec!["\"a\"".to_string(), "\"b\"".to_string()];
    assert_eq!(braced_list(&parts), "{\"a\", \"b\"}");
    assert_eq!(braced_list(&[]), "{}");
}

#[test]
fn symmetry_check_ignores_order() {
    let g = sample_graph();
    assert_eq!(g.check_symmetry("fp1", "fp2"), g.check_symmetry("fp2", "fp1"));
    assert_eq!(g.check_symmetry("fp1", "fp3"), g.check_symmetry("fp3", "fp1"));
}

#[test]
fn normalization_clamps_to_range() {
    let axis = HardwareAxis::new("x", HardwareAxisDomain::Microarch, 1_000_000, 3_000_000, false, "x");
    assert_eq!(axis.normalize(0), Some(0));
    assert_eq!(axis.normalize(1_000_000), Some(0));
    assert_eq!(axis.normalize(2_000_000), Some(500_000));
    assert_eq!(axis.normalize(3_000_000), Some(MILLION));
    assert_eq!(axis.normalize(9_000_000), Some(MILLION));
    let flat = HardwareAxis::new("y", HardwareAxisDomain::Microarch, 5, 5, false, "y");
    assert_eq!(flat.normalize(5), None);
}

#[test]
fn obligation_report_counts_add_up() {
    let mut g = sample_graph();
    g.generate_obligations();
    let r = ObligationReport::from_graph(&g, SecurityEpoch::from_raw(1));
    assert_eq!(
        r.pending_obligations + r.direct_discharges + r.transport_discharges + r.infeasible_count
            + r.waived_count,
        r.total_obligations
    );
}
