use franken_engine::collections::{EnumMap, EnumSet};
use franken_engine::foundation::SecurityEpoch;
use franken_engine::hardware_localization_residual::{
    HardwareFeature, LocalizationBoard, LocalizationEntry, MicroarchFamily, PromotionPolicy,
    PromotionVerdict, RejectionDetail, ResidualCategory, UnsupportedHardwareEntry, BEAD_ID,
    COMPONENT, DEFAULT_MAX_HARDWARE_ATTRIBUTABLE, DEFAULT_MIN_ALGORITHMIC_GAIN,
    DEFAULT_MIN_FAMILIES_TESTED, MAX_BOARD_ENTRIES, MAX_UNSUPPORTED_ENTRIES, MILLIONTHS, POLICY_ID,
    SCHEMA_VERSION,
};
use std::collections::BTreeSet;


fn epoch() -> SecurityEpoch {
    SecurityEpoch::from_raw(900)
}

/// Build an entry with the standard residual breakdown.
fn make_entry(
    family: MicroarchFamily,
    baseline_ns: u64,
    optimized_ns: u64,
    algo: u64,
    hw: u64,
    noise: u64,
    unexplained: u64,
    features: EnumSet<HardwareFeature>,
) -> LocalizationEntry {
    let mut breakdown = EnumMap::new();
    breakdown.insert(ResidualCategory::AlgorithmicGain, algo);
    breakdown.insert(ResidualCategory::HardwareAttributable, hw);
    breakdown.insert(ResidualCategory::MeasurementNoise, noise);
    breakdown.insert(ResidualCategory::Unexplained, unexplained);
    LocalizationEntry::new(family, features, baseline_ns, optimized_ns, breakdown)
}

/// A good algorithmic entry: 70% algo, 10% hw, 10% noise, 10% unexplained.
fn algo_dominant_entry(family: MicroarchFamily) -> LocalizationEntry {
    make_entry(
        family,
        1_000_000,
        700_000,
        700_000,
        100_000,
        100_000,
        100_000,
        EnumSet::new(),
    )
}

/// A hardware-dominant entry: 20% algo, 60% hw, 10% noise, 10% unexplained.
fn hw_dominant_entry(family: MicroarchFamily) -> LocalizationEntry {
    let mut feats = EnumSet::new();
    feats.insert(HardwareFeature::Avx512);
    make_entry(
        family, 1_000_000, 600_000, 200_000, 600_000, 100_000, 100_000, feats,
    )
}

// --- Constants ---

#[test]
fn hardware_localization_residual_schema_version_format() {
    assert!(SCHEMA_VERSION.starts_with("franken-engine."));
    assert!(SCHEMA_VERSION.contains("hardware-localization-residual"));
}

#[test]
fn hardware_localization_residual_component_name() {
    assert_eq!(COMPONENT, "hardware_localization_residual");
}

#[test]
fn hardware_localization_residual_bead_id_format() {
    assert!(BEAD_ID.starts_with("bd-"));
}

#[test]
fn hardware_localization_residual_policy_id_format() {
    assert!(POLICY_ID.starts_with("RGC-"));
}

#[test]
fn constant_invariants() {
    assert!(DEFAULT_MIN_ALGORITHMIC_GAIN > 0);
    assert!(DEFAULT_MAX_HARDWARE_ATTRIBUTABLE > 0);
    assert!(DEFAULT_MIN_FAMILIES_TESTED >= 2);
    assert!(MAX_BOARD_ENTRIES > 0);
    assert!(MAX_UNSUPPORTED_ENTRIES > 0);
    assert_eq!(MILLIONTHS, 1_000_000);
}

// --- HardwareFeature ---

#[test]
fn hardware_feature_all_length() {
    assert_eq!(HardwareFeature::ALL.len(), 13);
}

#[test]
fn hardware_feature_names_unique() {
    let names: BTreeSet<&str> = HardwareFeature::ALL.iter().map(|f| f.as_str()).collect();
    assert_eq!(names.len(), HardwareFeature::ALL.len());
}

#[test]
fn hardware_feature_ordering() {
    let mut sorted = HardwareFeature::ALL.to_vec();
    sorted.sort();
    // Verify the ordering is consistent (Avx2 < Avx512 < ... since we
    // derive Ord on enum discriminant order).
    assert_eq!(sorted[0], HardwareFeature::Avx2);
    assert_eq!(sorted[1], HardwareFeature::Avx512);
}

#[test]
fn hardware_feature_display_matches_as_str() {
    for f in HardwareFeature::ALL {
        assert_eq!(f.to_string(), f.as_str());
    }
}

#[test]
fn hardware_feature_x86_arm_neutral() {
    assert!(HardwareFeature::Avx2.is_x86());
    assert!(!HardwareFeature::Avx2.is_arm());
    assert!(HardwareFeature::Neon.is_arm());
    assert!(!HardwareFeature::Neon.is_x86());
    assert!(HardwareFeature::Aes.is_neutral());
    assert!(!HardwareFeature::Aes.is_x86());
    assert!(!HardwareFeature::Aes.is_arm());
}

// --- MicroarchFamily ---

#[test]
fn microarch_family_all_length() {
    assert_eq!(MicroarchFamily::ALL.len(), 8);
}

#[test]
fn microarch_family_names_unique() {
    let names: BTreeSet<&str> = MicroarchFamily::ALL.iter().map(|f| f.as_str()).collect();
    assert_eq!(names.len(), MicroarchFamily::ALL.len());
}

#[test]
fn microarch_family_ordering() {
    let mut sorted = MicroarchFamily::ALL.to_vec();
    sorted.sort();
    assert_eq!(sorted[0], MicroarchFamily::Zen4);
}

#[test]
fn microarch_family_display() {
    for f in MicroarchFamily::ALL {
        assert_eq!(f.to_string(), f.as_str());
    }
}

#[test]
fn microarch_family_isa_classification() {
    assert!(MicroarchFamily::Zen4.is_x86());
    assert!(!MicroarchFamily::Zen4.is_arm());
    assert!(MicroarchFamily::GravitonArm.is_arm());
    assert!(!MicroarchFamily::GravitonArm.is_x86());
    assert!(MicroarchFamily::AppleM.is_arm());
    assert!(MicroarchFamily::GenericX64.is_x86());
    assert!(MicroarchFamily::GenericArm64.is_arm());
}

#[test]
fn typical_features_non_empty_for_all() {
    for f in MicroarchFamily::ALL {
        let feats = f.typical_features();
        assert!(!feats.is_empty(), "family {} should have features", f.to_string());
    }
}

#[test]
fn typical_features_zen4_has_avx512() {
    let feats = MicroarchFamily::Zen4.typical_features();
    assert!(feats.contains(&HardwareFeature::Avx512));
    assert!(feats.contains(&HardwareFeature::Avx2));
}

#[test]
fn typical_features_graviton_has_neon() {
    let feats = MicroarchFamily::GravitonArm.typical_features();
    assert!(feats.contains(&HardwareFeature::Neon));
    assert!(!feats.contains(&HardwareFeature::Avx2));
}

// --- ResidualCategory ---

#[test]
fn residual_category_all_length() {
    assert_eq!(ResidualCategory::ALL.len(), 4);
}

#[test]
fn residual_category_names_unique() {
    let names: BTreeSet<&str> = ResidualCategory::ALL.iter().map(|c| c.as_str()).collect();
    assert_eq!(names.len(), ResidualCategory::ALL.len());
}

#[test]
fn residual_category_display() {
    for c in ResidualCategory::ALL {
        assert_eq!(c.to_string(), c.as_str());
    }
}

// --- LocalizationEntry ---

#[test]
fn entry_hash_determinism() {
    let e1 = algo_dominant_entry(MicroarchFamily::Zen4);
    let e2 = algo_dominant_entry(MicroarchFamily::Zen4);
    assert_eq!(e1.entry_hash, e2.entry_hash);
}

#[test]
fn entry_hash_varies_by_family() {
    let e1 = algo_dominant_entry(MicroarchFamily::Zen4);
    let e2 = algo_dominant_entry(MicroarchFamily::GravitonArm);
    assert_ne!(e1.entry_hash, e2.entry_hash);
}

#[test]
fn entry_speedup_calculation() {
    let e = make_entry(
        MicroarchFamily::Zen4,
        1_000_000,
        800_000,
        MILLIONTHS,
        0,
        0,
        0,
        EnumSet::new(),
    );
    // saved 200_000 / 1_000_000 = 20% = 200_000 millionths
    assert_eq!(e.speedup_millionths(), 200_000);
}

#[test]
fn entry_speedup_zero_when_no_improvement() {
    let e = make_entry(
        MicroarchFamily::Zen4,
        1_000_000,
        1_000_000,
        MILLIONTHS,
        0,
        0,
        0,
        EnumSet::new(),
    );
    assert_eq!(e.speedup_millionths(), 0);
}

#[test]
fn entry_speedup_zero_when_regression() {
    let e = make_entry(
        MicroarchFamily::Zen4,
        800_000,
        1_000_000,
        MILLIONTHS,
        0,
        0,
        0,
        EnumSet::new(),
    );
    assert_eq!(e.speedup_millionths(), 0);
}

#[test]
fn entry_speedup_zero_when_baseline_zero() {
    let e = make_entry(
        MicroarchFamily::Zen4,
        0,
        100,
        MILLIONTHS,
        0,
        0,
        0,
        EnumSet::new(),
    );
    assert_eq!(e.speedup_millionths(), 0);
}

#[test]
fn entry_algorithmic_and_hardware_fractions() {
    let e = make_entry(
        MicroarchFamily::Zen4,
        1_000_000,
        700_000,
        600_000,
        300_000,
        50_000,
        50_000,
        EnumSet::new(),
    );
    assert_eq!(e.algorithmic_fraction(), 600_000);
    assert_eq!(e.hardware_fraction(), 300_000);
    assert_eq!(e.residual_sum(), 1_000_000);
}

#[test]
fn entry_features_available_on() {
    let mut feats = EnumSet::new();
    feats.insert(HardwareFeature::Avx512);
    let e = make_entry(
        MicroarchFamily::Zen4,
        1_000_000,
        700_000,
        MILLIONTHS,
        0,
        0,
        0,
        feats,
    );
    assert!(e.features_available_on(MicroarchFamily::Zen4));
    assert!(!e.features_available_on(MicroarchFamily::AlderLake));
    assert!(!e.features_available_on(MicroarchFamily::GravitonArm));
}

#[test]
fn entry_display() {
    let e = algo_dominant_entry(MicroarchFamily::Zen4);
    let s = e.to_string();
    assert!(s.contains("zen4"));
}

// --- PromotionPolicy ---

#[test]
fn strict_policy_defaults() {
    let p = PromotionPolicy::strict();
    assert_eq!(
        p.min_algorithmic_gain_millionths,
        DEFAULT_MIN_ALGORITHMIC_GAIN
    );
    assert_eq!(
        p.max_hardware_attributable_millionths,
        DEFAULT_MAX_HARDWARE_ATTRIBUTABLE
    );
    assert!(p.require_arm_and_x64);
    assert!(p.min_hardware_families_tested >= 2);
}

#[test]
fn relaxed_policy_less_strict() {
    let strict = PromotionPolicy::strict();
    let relaxed = PromotionPolicy::relaxed();
    assert!(relaxed.min_algorithmic_gain_millionths < strict.min_algorithmic_gain_millionths);
    assert!(
        relaxed.max_hardware_attributable_millionths
            > strict.max_hardware_attributable_millionths
    );
    assert!(!relaxed.require_arm_and_x64);
}

#[test]
fn default_policy_is_strict() {
    let d = PromotionPolicy::default();
    let s = PromotionPolicy::strict();
    assert_eq!(d, s);
}

// --- PromotionVerdict ---

#[test]
fn verdict_promotable_is_pass() {
    assert!(PromotionVerdict::Promotable.is_pass());
    assert!(!PromotionVerdict::HardwareDependent.is_pass());
    assert!(!PromotionVerdict::InsufficientEvidence.is_pass());
    assert!(!PromotionVerdict::Rejected.is_pass());
}

#[test]
fn hardware_localization_residual_verdict_display() {
    assert_eq!(PromotionVerdict::Promotable.to_string(), "promotable");
    assert_eq!(
        PromotionVerdict::HardwareDependent.to_string(),
        "hardware_dependent"
    );
    assert_eq!(
        PromotionVerdict::InsufficientEvidence.to_string(),
        "insufficient_evidence"
    );
    assert_eq!(PromotionVerdict::Rejected.to_string(), "rejected");
}

// --- UnsupportedHardwareEntry ---

#[test]
fn unsupported_entry_hash_determinism() {
    let mut missing = EnumSet::new();
    missing.insert(HardwareFeature::Avx512);
    let e1 = UnsupportedHardwareEntry::new(
        MicroarchFamily::GravitonArm,
        missing.clone(),
        50_000,
        true,
    );
    let e2 = UnsupportedHardwareEntry::new(MicroarchFamily::GravitonArm, missing, 50_000, true);
    assert_eq!(e1.content_hash, e2.content_hash);
}

#[test]
fn unsupported_entry_display() {
    let mut missing = EnumSet::new();
    missing.insert(HardwareFeature::Avx512);
    let e = UnsupportedHardwareEntry::new(MicroarchFamily::GravitonArm, missing, 50_000, false);
    let s = e.to_string();
    assert!(s.contains("graviton_arm"));
    assert!(s.contains("1 missing"));
}

// --- LocalizationBoard ---

#[test]
fn empty_board_insufficient_evidence() {
    let board = LocalizationBoard::new("opt-1", epoch(), PromotionPolicy::relaxed());
    let (verdict, details) = board.evaluate_promotion();
    assert_eq!(verdict, PromotionVerdict::InsufficientEvidence);
    assert!(
        details
            .iter()
            .any(|d| matches!(d, RejectionDetail::EmptyBoard))
    );
}

#[test]
fn board_add_entry() {
    let mut board = LocalizationBoard::new("opt-2", epoch(), PromotionPolicy::relaxed());
    let entry = algo_dominant_entry(MicroarchFamily::Zen4);
    assert!(board.add_entry(entry));
    assert_eq!(board.entry_count(), 1);
}

#[test]
fn board_distinct_families() {
    let mut board = LocalizationBoard::new("opt-3", epoch(), PromotionPolicy::relaxed());
    board.add_entry(algo_dominant_entry(MicroarchFamily::Zen4));
    board.add_entry(algo_dominant_entry(MicroarchFamily::GravitonArm));
    assert_eq!(board.family_count(), 2);
    assert!(board.distinct_families().contains(&MicroarchFamily::Zen4));
    assert!(
        board
            .distinct_families()
            .contains(&MicroarchFamily::GravitonArm)
    );
}

#[test]
fn board_has_arm_and_x64() {
    let mut board = LocalizationBoard::new("opt-4", epoch(), PromotionPolicy::relaxed());
    board.add_entry(algo_dominant_entry(MicroarchFamily::Zen4));
    assert!(!board.has_arm_and_x64());
    board.add_entry(algo_dominant_entry(MicroarchFamily::GravitonArm));
    assert!(board.has_arm_and_x64());
}

#[test]
fn board_avg_algorithmic_gain() {
    let mut board = LocalizationBoard::new("opt-5", epoch(), PromotionPolicy::relaxed());
    // entry with 700_000 algo
    board.add_entry(algo_dominant_entry(MicroarchFamily::Zen4));
    // entry with 200_000 algo
    board.add_entry(hw_dominant_entry(MicroarchFamily::AlderLake));
    // avg = (700_000 + 200_000) / 2 = 450_000
    assert_eq!(board.avg_algorithmic_gain(), 450_000);
}

#[test]
fn board_max_hardware_attributable() {
    let mut board = LocalizationBoard::new("opt-6", epoch(), PromotionPolicy::relaxed());
    board.add_entry(algo_dominant_entry(MicroarchFamily::Zen4)); // hw = 100_000
    board.add_entry(hw_dominant_entry(MicroarchFamily::AlderLake)); // hw = 600_000
    assert_eq!(board.max_hardware_attributable(), 600_000);
}

#[test]
fn board_promotion_algorithmic_gain_dominates() {
    let mut board = LocalizationBoard::new("opt-7", epoch(), PromotionPolicy::relaxed());
    board.add_entry(algo_dominant_entry(MicroarchFamily::Zen4));
    board.add_entry(algo_dominant_entry(MicroarchFamily::GravitonArm));
    let (verdict, details) = board.evaluate_promotion();
    assert_eq!(verdict, PromotionVerdict::Promotable);
    assert!(details.is_empty());
}

#[test]
fn board_promotion_hardware_dominant_blocks() {
    let mut board = LocalizationBoard::new("opt-8", epoch(), PromotionPolicy::relaxed());
    board.add_entry(hw_dominant_entry(MicroarchFamily::Zen4));
    board.add_entry(hw_dominant_entry(MicroarchFamily::GravitonArm));
    let (verdict, _details) = board.evaluate_promotion();
    assert_eq!(verdict, PromotionVerdict::HardwareDependent);
}

#[test]
fn board_promotion_single_family_insufficient() {
    let policy = PromotionPolicy {
        min_hardware_families_tested: 2,
        require_arm_and_x64: false,
        ..PromotionPolicy::relaxed()
    };
    let mut board = LocalizationBoard::new("opt-9", epoch(), policy);
    board.add_entry(algo_dominant_entry(MicroarchFamily::Zen4));
    let (verdict, details) = board.evaluate_promotion();
    assert_eq!(verdict, PromotionVerdict::InsufficientEvidence);
    assert!(
        details
            .iter()
            .any(|d| matches!(d, RejectionDetail::TooFewFamilies { .. }))
    );
}

#[test]
fn board_promotion_arm_x64_requirement() {
    let policy = PromotionPolicy {
        min_hardware_families_tested: 2,
        require_arm_and_x64: true,
        min_algorithmic_gain_millionths: 400_000,
        max_hardware_attributable_millionths: 500_000,
        max_noise_millionths: 200_000,
        max_unexplained_millionths: 200_000,
    };
    let mut board = LocalizationBoard::new("opt-10", epoch(), policy);
    board.add_entry(algo_dominant_entry(MicroarchFamily::Zen4));
    board.add_entry(algo_dominant_entry(MicroarchFamily::AlderLake));
    let (verdict, details) = board.evaluate_promotion();
    // Two x86 families but no ARM.
    assert_eq!(verdict, PromotionVerdict::InsufficientEvidence);
    assert!(details.iter().any(|d| matches!(
        d,
        RejectionDetail::MissingIsaCoverage { has_arm: false, .. }
    )));
}

#[test]
fn board_unsupported_hardware_detection() {
    let mut board = LocalizationBoard::new("opt-11", epoch(), PromotionPolicy::relaxed());
    let mut feats = EnumSet::new();
    feats.insert(HardwareFeature::Avx512);
    let entry = make_entry(
        MicroarchFamily::Zen4,
        1_000_000,
        700_000,
        700_000,
        100_000,
        100_000,
        100_000,
        feats,
    );
    board.add_entry(entry);
    let unsupported = board.identify_unsupported_hardware();
    // AlderLake and RaptorLake lack Avx512 in our typical features model.
    let unsupported_families: BTreeSet<MicroarchFamily> =
        unsupported.iter().map(|u| u.family).collect();
    assert!(unsupported_families.contains(&MicroarchFamily::AlderLake));
    assert!(unsupported_families.contains(&MicroarchFamily::GravitonArm));
}

#[test]
fn board_no_speedup_rejected() {
    let mut board = LocalizationBoard::new("opt-12", epoch(), PromotionPolicy::relaxed());
    let entry = make_entry(
        MicroarchFamily::Zen4,
        1_000_000,
        1_000_000,
        500_000,
        500_000,
        0,
        0,
        EnumSet::new(),
    );
    board.add_entry(entry);
    let (verdict, details) = board.evaluate_promotion();
    assert_eq!(verdict, PromotionVerdict::Rejected);
    assert!(
        details
            .iter()
            .any(|d| matches!(d, RejectionDetail::NoSpeedupObserved))
    );
}

#[test]
fn board_content_hash_determinism() {
    let mut b1 = LocalizationBoard::new("opt-13", epoch(), PromotionPolicy::relaxed());
    b1.add_entry(algo_dominant_entry(MicroarchFamily::Zen4));

    let mut b2 = LocalizationBoard::new("opt-13", epoch(), PromotionPolicy::relaxed());
    b2.add_entry(algo_dominant_entry(MicroarchFamily::Zen4));

    assert_eq!(b1.content_hash, b2.content_hash);
}

#[test]
fn board_display() {
    let board = LocalizationBoard::new("opt-14", epoch(), PromotionPolicy::relaxed());
    let s = board.to_string();
    assert!(s.contains("opt-14"));
    assert!(s.contains("entries=0"));
}

// --- LocalizationReport ---

#[test]
fn report_generation() {
    let mut board = LocalizationBoard::new("opt-15", epoch(), PromotionPolicy::relaxed());
    board.add_entry(algo_dominant_entry(MicroarchFamily::Zen4));
    board.add_entry(algo_dominant_entry(MicroarchFamily::GravitonArm));
    let report = board.generate_report();
    assert!(report.is_promotable());
    assert_eq!(report.entry_count(), 2);
    assert_eq!(report.optimization_id, "opt-15");
    assert_eq!(report.epoch, epoch());
}

#[test]
fn report_content_hash_determinism() {
    let mut b1 = LocalizationBoard::new("opt-16", epoch(), PromotionPolicy::relaxed());
    b1.add_entry(algo_dominant_entry(MicroarchFamily::Zen4));
    b1.add_entry(algo_dominant_entry(MicroarchFamily::GravitonArm));
    let r1 = b1.generate_report();

    let mut b2 = LocalizationBoard::new("opt-16", epoch(), PromotionPolicy::relaxed());
    b2.add_entry(algo_dominant_entry(MicroarchFamily::Zen4));
    b2.add_entry(algo_dominant_entry(MicroarchFamily::GravitonArm));
    let r2 = b2.generate_report();

    assert_eq!(r1.content_hash, r2.content_hash);
}

#[test]
fn report_unsupported_hardware_tracking() {
    let mut board = LocalizationBoard::new("opt-17", epoch(), PromotionPolicy::relaxed());
    let mut feats = EnumSet::new();
    feats.insert(HardwareFeature::Avx512);
    let entry = make_entry(
        MicroarchFamily::Zen4,
        1_000_000,
        700_000,
        700_000,
        100_000,
        100_000,
        100_000,
        feats,
    );
    board.add_entry(entry);
    let report = board.generate_report();
    assert!(report.has_unsupported_hardware());
    assert!(report.unsupported_count() > 0);
}

#[test]
fn report_fallback_families() {
    let mut board = LocalizationBoard::new("opt-18", epoch(), PromotionPolicy::relaxed());
    let mut feats = EnumSet::new();
    feats.insert(HardwareFeature::Avx512);
    feats.insert(HardwareFeature::PopcntHw);
    let entry = make_entry(
        MicroarchFamily::Zen4,
        1_000_000,
        700_000,
        700_000,
        100_000,
        100_000,
        100_000,
        feats,
    );
    board.add_entry(entry);
    let report = board.generate_report();
    // Some families will have fallback, some won't.
    let all_unsupported = &report.unsupported_hardware;
    let with_fallback: Vec<_> = all_unsupported
        .iter()
        .filter(|u| u.fallback_available)
        .collect();
    let without_fallback: Vec<_> = all_unsupported
        .iter()
        .filter(|u| !u.fallback_available)
        .collect();
    // At least one family should exist in each category or combined.
    assert!(!all_unsupported.is_empty());
    assert_eq!(
        with_fallback.len() + without_fallback.len(),
        all_unsupported.len()
    );
}

#[test]
fn report_display() {
    let mut board = LocalizationBoard::new("opt-19", epoch(), PromotionPolicy::relaxed());
    board.add_entry(algo_dominant_entry(MicroarchFamily::Zen4));
    let report = board.generate_report();
    let s = report.to_string();
    assert!(s.contains("opt-19"));
    assert!(s.contains("LocalizationReport"));
}

// --- Mixed / boundary tests ---

#[test]
fn mixed_residuals_across_families() {
    let mut board = LocalizationBoard::new("opt-20", epoch(), PromotionPolicy::relaxed());
    // Algo-dominant on Zen4.
    board.add_entry(algo_dominant_entry(MicroarchFamily::Zen4));
    // HW-dominant on Graviton.
    board.add_entry(hw_dominant_entry(MicroarchFamily::GravitonArm));
    let (verdict, _) = board.evaluate_promotion();
    // avg algo = (700_000 + 200_000)/2 = 450_000 >= relaxed 400_000
    // max hw = 600_000 > relaxed 500_000
    assert_eq!(verdict, PromotionVerdict::HardwareDependent);
}

#[test]
fn policy_boundary_algo_gain_exactly_at_threshold() {
    let policy = PromotionPolicy {
        min_algorithmic_gain_millionths: 700_000,
        max_hardware_attributable_millionths: 500_000,
        min_hardware_families_tested: 1,
        require_arm_and_x64: false,
        max_noise_millionths: 200_000,
        max_unexplained_millionths: 200_000,
    };
    let mut board = LocalizationBoard::new("opt-21", epoch(), policy);
    board.add_entry(algo_dominant_entry(MicroarchFamily::Zen4)); // algo = 700_000
    let (verdict, details) = board.evaluate_promotion();
    assert_eq!(verdict, PromotionVerdict::Promotable);
    assert!(details.is_empty());
}

#[test]
fn policy_boundary_algo_gain_just_below_threshold() {
    let policy = PromotionPolicy {
        min_algorithmic_gain_millionths: 700_001,
        max_hardware_attributable_millionths: 500_000,
        min_hardware_families_tested: 1,
        require_arm_and_x64: false,
        max_noise_millionths: 200_000,
        max_unexplained_millionths: 200_000,
    };
    let mut board = LocalizationBoard::new("opt-22", epoch(), policy);
    board.add_entry(algo_dominant_entry(MicroarchFamily::Zen4)); // algo = 700_000
    let (verdict, _) = board.evaluate_promotion();
    assert_eq!(verdict, PromotionVerdict::HardwareDependent);
}

#[test]
fn excessive_noise_rejection() {
    let policy = PromotionPolicy {
        min_algorithmic_gain_millionths: 400_000,
        max_hardware_attributable_millionths: 500_000,
        min_hardware_families_tested: 1,
        require_arm_and_x64: false,
        max_noise_millionths: 50_000,
        max_unexplained_millionths: 200_000,
    };
    let mut board = LocalizationBoard::new("opt-23", epoch(), policy);
    // Entry with 100_000 noise > 50_000 threshold.
    board.add_entry(algo_dominant_entry(MicroarchFamily::Zen4));
    let (verdict, details) = board.evaluate_promotion();
    assert_eq!(verdict, PromotionVerdict::Rejected);
    assert!(
        details
            .iter()
            .any(|d| matches!(d, RejectionDetail::ExcessiveNoise { .. }))
    );
}

#[test]
fn board_avg_speedup() {
    let mut board = LocalizationBoard::new("opt-24", epoch(), PromotionPolicy::relaxed());
    board.add_entry(algo_dominant_entry(MicroarchFamily::Zen4)); // 300_000 millionths
    assert_eq!(board.avg_speedup(), 300_000);
}

#[test]
fn rejection_detail_display() {
    let d = RejectionDetail::AlgorithmicGainTooLow {
        observed_millionths: 100_000,
        threshold_millionths: 600_000,
    };
    let s = d.to_string();
    assert!(s.contains("100000"));
    assert!(s.contains("600000"));
}

#[test]
fn board_seal_updates_hash() {
    let mut board = LocalizationBoard::new("opt-25", epoch(), PromotionPolicy::relaxed());
    let h1 = board.content_hash;
    board.add_entry(algo_dominant_entry(MicroarchFamily::Zen4));
    let h2 = board.content_hash;
    assert_ne!(h1, h2);
}

#[test]
fn three_family_strict_policy_promotable() {
    let mut board = LocalizationBoard::new("opt-27", epoch(), PromotionPolicy::strict());
    board.add_entry(algo_dominant_entry(MicroarchFamily::Zen4));
    board.add_entry(algo_dominant_entry(MicroarchFamily::AlderLake));
    board.add_entry(algo_dominant_entry(MicroarchFamily::GravitonArm));
    let (verdict, details) = board.evaluate_promotion();
    assert_eq!(verdict, PromotionVerdict::Promotable);
    assert!(details.is_empty());
}

#[test]
fn strict_policy_two_families_insufficient() {
    let mut board = LocalizationBoard::new("opt-28", epoch(), PromotionPolicy::strict());
    board.add_entry(algo_dominant_entry(MicroarchFamily::Zen4));
    board.add_entry(algo_dominant_entry(MicroarchFamily::GravitonArm));
    let (verdict, details) = board.evaluate_promotion();
    // Strict requires 3 families.
    assert_eq!(verdict, PromotionVerdict::InsufficientEvidence);
    assert!(details.iter().any(|d| matches!(
        d,
        RejectionDetail::TooFewFamilies {
            tested: 2,
            required: 3
        }
    )));
}

#[test]
fn board_multiple_entries_same_family() {
    let mut board = LocalizationBoard::new("opt-29", epoch(), PromotionPolicy::relaxed());
    board.add_entry(algo_dominant_entry(MicroarchFamily::Zen4));
    board.add_entry(algo_dominant_entry(MicroarchFamily::Zen4));
    board.add_entry(algo_dominant_entry(MicroarchFamily::GravitonArm));
    assert_eq!(board.entry_count(), 3);
    assert_eq!(board.family_count(), 2);
}

#[test]
fn report_not_promotable_when_hardware_dependent() {
    let mut board = LocalizationBoard::new("opt-30", epoch(), PromotionPolicy::relaxed());
    board.add_entry(hw_dominant_entry(MicroarchFamily::Zen4));
    board.add_entry(hw_dominant_entry(MicroarchFamily::GravitonArm));
    let report = board.generate_report();
    assert!(!report.is_promotable());
    assert_eq!(report.verdict, PromotionVerdict::HardwareDependent);
}

#[test]
fn report_algorithmic_gain_field() {
    let mut board = LocalizationBoard::new("opt-31", epoch(), PromotionPolicy::relaxed());
    board.add_entry(algo_dominant_entry(MicroarchFamily::Zen4));
    let report = board.generate_report();
    assert_eq!(report.algorithmic_gain_millionths, 700_000);
    assert_eq!(report.hardware_attributable_millionths, 100_000);
}

#[test]
fn entry_empty_residual_breakdown() {
    let entry = LocalizationEntry::new(
        MicroarchFamily::Zen4,
        EnumSet::new(),
        1_000,
        500,
        EnumMap::new(),
    );
    assert_eq!(entry.algorithmic_fraction(), 0);
    assert_eq!(entry.hardware_fraction(), 0);
    assert_eq!(entry.residual_sum(), 0);
}

#[test]
fn excessive_unexplained_rejection() {
    let policy = PromotionPolicy {
        min_algorithmic_gain_millionths: 100_000,
        max_hardware_attributable_millionths: 800_000,
        min_hardware_families_tested: 1,
        require_arm_and_x64: false,
        max_noise_millionths: 200_000,
        max_unexplained_millionths: 50_000,
    };
    let mut board = LocalizationBoard::new("opt-32", epoch(), policy);
    board.add_entry(algo_dominant_entry(MicroarchFamily::Zen4)); // unexplained = 100_000
    let (verdict, details) = board.evaluate_promotion();
    assert_eq!(verdict, PromotionVerdict::Rejected);
    assert!(
        details
            .iter()
            .any(|d| matches!(d, RejectionDetail::ExcessiveUnexplained { .. }))
    );
}


#[test]
fn report_fallback_family_lists() {
    let mut board = LocalizationBoard::new("opt-18b", epoch(), PromotionPolicy::relaxed());
    let mut feats = EnumSet::new();
    feats.insert(HardwareFeature::Avx512);
    feats.insert(HardwareFeature::PopcntHw);
    board.add_entry(make_entry(
        MicroarchFamily::Zen4,
        1_000_000,
        700_000,
        700_000,
        100_000,
        100_000,
        100_000,
        feats,
    ));
    let report = board.generate_report();
    assert_eq!(
        report.fallback_families(),
        vec![
            MicroarchFamily::AlderLake,
            MicroarchFamily::RaptorLake,
            MicroarchFamily::GravitonArm,
            MicroarchFamily::AppleM,
            MicroarchFamily::GenericX64,
        ]
    );
    assert_eq!(report.no_fallback_families(), vec![MicroarchFamily::GenericArm64]);
}
