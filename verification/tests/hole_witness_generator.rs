use franken_engine::collections::EnumSet;
use franken_engine::foundation::SecurityEpoch;
use franken_engine::hole_witness_generator::{
    adjust_confidence, build_template_registry, collect_witness_ids, covered_surfaces,
    empty_batches, find_templates, generate_for_hole, generate_witnesses,
    generate_witnesses_at_epoch, instantiate_witness, max_confidence, min_confidence,
    report_summary, surface_coverage, uncovered_holes, GenerationOutcome, GeneratorConfig,
    GeneratorError, HoleReference, HoleSurface, WitnessProgramKind, WitnessSourceFile, BEAD_ID,
    COMPONENT, DEFAULT_MAX_WITNESS_LINES, MILLION, POLICY_ID, SCHEMA_VERSION,
};
use std::collections::BTreeSet;


fn make_hole(id: &str, surface: HoleSurface, persistence: u64) -> HoleReference {
    HoleReference {
        hole_id: id.to_string(),
        dimension: 1,
        persistence_millionths: persistence,
        surface,
        representative_cycle: vec!["s0".into(), "s1".into()],
        affected_programs: vec!["prog_a".into()],
    }
}

fn default_config() -> GeneratorConfig {
    GeneratorConfig::default()
}

// --- Constants ---

#[test]
fn schema_version_matches() {
    assert_eq!(SCHEMA_VERSION, "franken-engine.hole-witness-generator.v1");
}

#[test]
fn bead_id_matches() {
    assert_eq!(BEAD_ID, "bd-1lsy.9.9.2");
}

#[test]
fn component_matches() {
    assert_eq!(COMPONENT, "hole_witness_generator");
}

#[test]
fn policy_id_matches() {
    assert_eq!(POLICY_ID, "RGC-809B");
}

// --- Enums ---

#[test]
fn witness_program_kind_display() {
    assert_eq!(WitnessProgramKind::JavaScript.to_string(), "javascript");
    assert_eq!(WitnessProgramKind::ReactApp.to_string(), "react_app");
    assert_eq!(
        WitnessProgramKind::ModuleResolution.to_string(),
        "module_resolution"
    );
}

#[test]
fn hole_surface_display() {
    assert_eq!(HoleSurface::Parser.to_string(), "parser");
    assert_eq!(HoleSurface::React.to_string(), "react");
    assert_eq!(HoleSurface::Interop.to_string(), "interop");
}

// --- HoleReference ---

#[test]
fn hole_reference_content_hash_deterministic() {
    let h1 = make_hole("h1", HoleSurface::Parser, 100_000);
    let h2 = make_hole("h1", HoleSurface::Parser, 100_000);
    assert_eq!(h1.content_hash(), h2.content_hash());
}

#[test]
fn hole_reference_different_ids_different_hashes() {
    let h1 = make_hole("h1", HoleSurface::Parser, 100_000);
    let h2 = make_hole("h2", HoleSurface::Parser, 100_000);
    assert_ne!(h1.content_hash(), h2.content_hash());
}

// --- WitnessSourceFile ---

#[test]
fn source_file_line_count() {
    let f = WitnessSourceFile::new("a.js", "line1\nline2\nline3");
    assert_eq!(f.line_count, 3);
}

#[test]
fn source_file_empty_content_has_one_line() {
    let f = WitnessSourceFile::new("a.js", "");
    assert_eq!(f.line_count, 1);
}

#[test]
fn source_file_content_hash_deterministic() {
    let f1 = WitnessSourceFile::new("a.js", "hello");
    let f2 = WitnessSourceFile::new("a.js", "hello");
    assert_eq!(f1.content_hash(), f2.content_hash());
}

// --- WitnessProgram ---

#[test]
fn witness_program_seal_updates_hash() {
    let hole = make_hole("h1", HoleSurface::Parser, 200_000);
    let registry = build_template_registry();
    let tmpl = &registry[0]; // Parser/JS
    let mut w = instantiate_witness(tmpl, &hole, 0);
    let hash1 = w.content_hash.clone();
    w.description = "modified".into();
    w.seal();
    // After modifying description (not in hash), hash stays the same
    // But tags etc. didn't change, so only description didn't change hash
    // Actually description is not in hash, so hash shouldn't change
    assert_eq!(hash1, w.content_hash);
}

#[test]
fn witness_program_is_minimal() {
    let hole = make_hole("h1", HoleSurface::Parser, 200_000);
    let registry = build_template_registry();
    let w = instantiate_witness(&registry[0], &hole, 0);
    assert!(w.is_minimal(DEFAULT_MAX_WITNESS_LINES));
    assert!(!w.is_minimal(1));
}

#[test]
fn witness_program_is_confident() {
    let hole = make_hole("h1", HoleSurface::Parser, 200_000);
    let registry = build_template_registry();
    let w = instantiate_witness(&registry[0], &hole, 0);
    assert!(w.is_confident(700_000));
    assert!(!w.is_confident(MILLION));
}

// --- GeneratorConfig ---

#[test]
fn default_config_has_all_kinds() {
    let cfg = GeneratorConfig::default();
    assert!(cfg.allowed_kinds.contains(&WitnessProgramKind::JavaScript));
    assert!(cfg.allowed_kinds.contains(&WitnessProgramKind::ReactApp));
    assert!(
        cfg.allowed_kinds
            .contains(&WitnessProgramKind::PackageManifest)
    );
}

// --- generate_for_hole ---

#[test]
fn generate_for_parser_hole() {
    let hole = make_hole("h1", HoleSurface::Parser, 200_000);
    let cfg = default_config();
    let batch = generate_for_hole(&hole, &cfg).unwrap();
    assert_eq!(batch.hole_id, "h1");
    assert!(!batch.witnesses.is_empty());
    assert!(batch.has_confident_witness);
}

#[test]
fn generate_for_react_hole() {
    let hole = make_hole("h2", HoleSurface::React, 300_000);
    let cfg = default_config();
    let batch = generate_for_hole(&hole, &cfg).unwrap();
    assert_eq!(batch.surface, HoleSurface::React);
    assert!(!batch.witnesses.is_empty());
}

#[test]
fn generate_for_module_hole() {
    let hole = make_hole("h3", HoleSurface::Module, 400_000);
    let cfg = default_config();
    let batch = generate_for_hole(&hole, &cfg).unwrap();
    assert_eq!(batch.surface, HoleSurface::Module);
    // Module templates have 3 files
    for w in &batch.witnesses {
        assert!(w.files.len() >= 2);
    }
}

#[test]
fn generate_below_persistence_threshold_returns_empty() {
    let hole = make_hole("low", HoleSurface::Parser, 10_000);
    let cfg = default_config();
    let batch = generate_for_hole(&hole, &cfg).unwrap();
    assert!(batch.witnesses.is_empty());
    assert!(!batch.has_confident_witness);
}

#[test]
fn generate_invalid_hole_id_returns_error() {
    let hole = HoleReference {
        hole_id: String::new(),
        dimension: 0,
        persistence_millionths: 100_000,
        surface: HoleSurface::Parser,
        representative_cycle: vec![],
        affected_programs: vec![],
    };
    let cfg = default_config();
    let err = generate_for_hole(&hole, &cfg).unwrap_err();
    assert!(matches!(err, GeneratorError::InvalidHoleReference(_)));
}

#[test]
fn max_witnesses_per_hole_respected() {
    let hole = make_hole("h1", HoleSurface::Parser, 300_000);
    let mut cfg = default_config();
    cfg.max_witnesses_per_hole = 1;
    let batch = generate_for_hole(&hole, &cfg).unwrap();
    assert!(batch.witnesses.len() <= 1);
}

// --- generate_witnesses ---

#[test]
fn generate_witnesses_empty_returns_error() {
    let cfg = default_config();
    let err = generate_witnesses(&[], &cfg).unwrap_err();
    assert!(matches!(err, GeneratorError::EmptyInput));
}

#[test]
fn generate_witnesses_multiple_holes() {
    let holes = vec![
        make_hole("p1", HoleSurface::Parser, 200_000),
        make_hole("r1", HoleSurface::Runtime, 300_000),
        make_hole("m1", HoleSurface::Module, 400_000),
    ];
    let cfg = default_config();
    let report = generate_witnesses(&holes, &cfg).unwrap();
    assert_eq!(report.holes_processed, 3);
    assert!(report.total_witnesses >= 3);
}

#[test]
fn report_outcome_complete_when_all_covered() {
    let holes = vec![
        make_hole("p1", HoleSurface::Parser, 500_000),
        make_hole("r1", HoleSurface::Runtime, 500_000),
    ];
    let cfg = default_config();
    let report = generate_witnesses(&holes, &cfg).unwrap();
    assert_eq!(report.outcome, GenerationOutcome::Complete);
    assert_eq!(report.coverage_millionths, MILLION);
}

#[test]
fn report_outcome_partial_when_some_below_threshold() {
    let holes = vec![
        make_hole("p1", HoleSurface::Parser, 500_000),
        make_hole("low", HoleSurface::Parser, 10_000),
    ];
    let cfg = default_config();
    let report = generate_witnesses(&holes, &cfg).unwrap();
    // One hole below threshold → empty batch → not confident
    assert_eq!(report.outcome, GenerationOutcome::Partial);
}

#[test]
fn report_seal_deterministic() {
    let holes = vec![make_hole("h1", HoleSurface::Parser, 200_000)];
    let cfg = default_config();
    let r1 = generate_witnesses(&holes, &cfg).unwrap();
    let r2 = generate_witnesses(&holes, &cfg).unwrap();
    assert_eq!(r1.content_hash, r2.content_hash);
}

#[test]
fn generate_with_epoch() {
    let holes = vec![make_hole("h1", HoleSurface::Parser, 200_000)];
    let cfg = default_config();
    let epoch = SecurityEpoch::from_raw(42);
    let report = generate_witnesses_at_epoch(&holes, &cfg, epoch).unwrap();
    assert_eq!(report.epoch, epoch);
}

// --- Analysis helpers ---

#[test]
fn collect_witness_ids_works() {
    let holes = vec![
        make_hole("a", HoleSurface::Parser, 200_000),
        make_hole("b", HoleSurface::Runtime, 200_000),
    ];
    let cfg = default_config();
    let report = generate_witnesses(&holes, &cfg).unwrap();
    let ids = collect_witness_ids(&report);
    assert!(ids.len() >= 2);
    assert!(ids.iter().all(|id| id.starts_with("wt-")));
}

#[test]
fn covered_surfaces_correct() {
    let holes = vec![
        make_hole("a", HoleSurface::Parser, 500_000),
        make_hole("b", HoleSurface::React, 500_000),
    ];
    let cfg = default_config();
    let report = generate_witnesses(&holes, &cfg).unwrap();
    let surfaces = covered_surfaces(&report);
    assert!(surfaces.contains(&HoleSurface::Parser));
    assert!(surfaces.contains(&HoleSurface::React));
}

#[test]
fn surface_coverage_breakdown() {
    let holes = vec![
        make_hole("a", HoleSurface::Parser, 500_000),
        make_hole("b", HoleSurface::Parser, 10_000),
    ];
    let cfg = default_config();
    let report = generate_witnesses(&holes, &cfg).unwrap();
    let cov = surface_coverage(&report);
    let parser_cov = cov.get(&HoleSurface::Parser).unwrap_or(0);
    assert_eq!(parser_cov, 500_000); // 1/2 covered
}

#[test]
fn uncovered_holes_returns_non_confident() {
    let holes = vec![
        make_hole("a", HoleSurface::Parser, 500_000),
        make_hole("b", HoleSurface::Parser, 10_000),
    ];
    let cfg = default_config();
    let report = generate_witnesses(&holes, &cfg).unwrap();
    let uncov = uncovered_holes(&report);
    // "b" has no witnesses (below threshold), so it's an empty batch, not "uncovered"
    assert!(uncov.is_empty());
}

#[test]
fn empty_batches_returns_below_threshold() {
    let holes = vec![
        make_hole("a", HoleSurface::Parser, 500_000),
        make_hole("b", HoleSurface::Parser, 10_000),
    ];
    let cfg = default_config();
    let report = generate_witnesses(&holes, &cfg).unwrap();
    let empty = empty_batches(&report);
    assert_eq!(empty.len(), 1);
    assert_eq!(empty[0].hole_id, "b");
}

#[test]
fn max_min_confidence_correct() {
    let holes = vec![
        make_hole("a", HoleSurface::Parser, 500_000),
        make_hole("b", HoleSurface::Runtime, 500_000),
    ];
    let cfg = default_config();
    let report = generate_witnesses(&holes, &cfg).unwrap();
    let max_c = max_confidence(&report);
    let min_c = min_confidence(&report);
    assert!(max_c > 0);
    assert!(min_c > 0);
    assert!(max_c >= min_c);
}

#[test]
fn report_summary_works() {
    let holes = vec![
        make_hole("a", HoleSurface::Parser, 500_000),
        make_hole("b", HoleSurface::React, 500_000),
    ];
    let cfg = default_config();
    let report = generate_witnesses(&holes, &cfg).unwrap();
    let summary = report_summary(&report);
    assert_eq!(summary.holes_processed, 2);
    assert!(summary.surfaces_covered >= 1);
}

// --- Confidence adjustment ---

#[test]
fn high_dimension_reduces_confidence() {
    let base = 800_000u64;
    let mut hole = make_hole("h", HoleSurface::Parser, 200_000);
    hole.dimension = 0;
    let c0 = adjust_confidence(base, &hole);
    hole.dimension = 3;
    let c3 = adjust_confidence(base, &hole);
    assert!(c0 > c3);
}

#[test]
fn empty_cycle_reduces_confidence() {
    let base = 800_000u64;
    let mut hole = make_hole("h", HoleSurface::Parser, 200_000);
    let c_with = adjust_confidence(base, &hole);
    hole.representative_cycle.clear();
    let c_without = adjust_confidence(base, &hole);
    assert!(c_with > c_without);
}

#[test]
fn many_affected_programs_boosts_confidence() {
    let base = 700_000u64;
    let mut hole = make_hole("h", HoleSurface::Parser, 200_000);
    let c_few = adjust_confidence(base, &hole);
    hole.affected_programs = vec!["a".into(), "b".into(), "c".into(), "d".into(), "e".into()];
    let c_many = adjust_confidence(base, &hole);
    assert!(c_many > c_few);
}

#[test]
fn low_persistence_reduces_confidence() {
    let base = 800_000u64;
    let h1 = make_hole("h", HoleSurface::Parser, 500_000);
    let h2 = make_hole("h", HoleSurface::Parser, 50_000);
    let c1 = adjust_confidence(base, &h1);
    let c2 = adjust_confidence(base, &h2);
    assert!(c1 > c2);
}

// --- Template registry ---

#[test]
fn template_registry_nonempty() {
    let reg = build_template_registry();
    assert!(reg.len() >= 8);
}

#[test]
fn template_registry_covers_all_surfaces() {
    let reg = build_template_registry();
    let surfaces: BTreeSet<HoleSurface> = reg.iter().map(|t| t.surface).collect();
    assert!(surfaces.contains(&HoleSurface::Parser));
    assert!(surfaces.contains(&HoleSurface::Runtime));
    assert!(surfaces.contains(&HoleSurface::Module));
    assert!(surfaces.contains(&HoleSurface::React));
    assert!(surfaces.contains(&HoleSurface::Interop));
}

#[test]
fn find_templates_filters_by_surface_and_kind() {
    let reg = build_template_registry();
    let mut allowed = EnumSet::new();
    allowed.insert(WitnessProgramKind::JavaScript);
    let matches = find_templates(&reg, HoleSurface::Parser, &allowed);
    assert!(!matches.is_empty());
    for m in &matches {
        assert_eq!(m.surface, HoleSurface::Parser);
        assert_eq!(m.kind, WitnessProgramKind::JavaScript);
    }
}

// --- Error types ---

#[test]
fn generator_error_display() {
    assert_eq!(
        GeneratorError::EmptyInput.to_string(),
        "no holes provided"
    );
    assert_eq!(
        (GeneratorError::UnsupportedSurface("x".into())).to_string(),
        "unsupported surface: x"
    );
}

// --- GenerationOutcome ---

#[test]
fn outcome_display() {
    assert_eq!(GenerationOutcome::Complete.to_string(), "complete");
    assert_eq!(GenerationOutcome::Partial.to_string(), "partial");
    assert_eq!(GenerationOutcome::Empty.to_string(), "empty");
    assert_eq!(
        GenerationOutcome::NoActionableHoles.to_string(),
        "no_actionable_holes"
    );
}

// --- Interop witness ---

#[test]
fn interop_hole_generates_package_witness() {
    let hole = make_hole("int1", HoleSurface::Interop, 300_000);
    let cfg = default_config();
    let batch = generate_for_hole(&hole, &cfg).unwrap();
    let has_pkg = batch
        .witnesses
        .iter()
        .any(|w| w.kind == WitnessProgramKind::PackageManifest);
    assert!(has_pkg);
}

// --- Whole pipeline ---

#[test]
fn full_pipeline_all_surfaces() {
    let holes = vec![
        make_hole("p1", HoleSurface::Parser, 300_000),
        make_hole("r1", HoleSurface::Runtime, 300_000),
        make_hole("m1", HoleSurface::Module, 300_000),
        make_hole("x1", HoleSurface::React, 300_000),
        make_hole("i1", HoleSurface::Interop, 300_000),
        make_hole("l1", HoleSurface::Lowering, 300_000),
        make_hole("e1", HoleSurface::RegExp, 300_000),
        make_hole("t1", HoleSurface::TypeScript, 300_000),
        make_hole("s1", HoleSurface::Stdlib, 300_000),
    ];
    let cfg = default_config();
    let report = generate_witnesses(&holes, &cfg).unwrap();
    assert_eq!(report.holes_processed, 9);
    assert!(report.total_witnesses >= 9);
    assert_eq!(report.outcome, GenerationOutcome::Complete);
}


// --- Exact behaviour ---

#[test]
fn hole_reference_hash_exact() {
    let h = make_hole("h1", HoleSurface::Parser, 100_000);
    assert_eq!(
        h.content_hash().to_hex(),
        "31758784274a29063223b8fdc3db8126c94f7203466f7f2934185d4c473972fa"
    );
    let f = WitnessSourceFile::new("a.js", "hello");
    assert_eq!(
        f.content_hash().to_hex(),
        "b0714142774e3f808d20d36a1cb879a0d97e9167cf3968fb1fa08571984f8161"
    );
}

#[test]
fn source_file_line_counts_follow_lines() {
    assert_eq!(WitnessSourceFile::new("a", "a\nb\n").line_count, 2);
    assert_eq!(WitnessSourceFile::new("a", "a\n\nb").line_count, 3);
    assert_eq!(WitnessSourceFile::new("a", "\n").line_count, 1);
    assert_eq!(WitnessSourceFile::new("a", "x").line_count, 1);
}

#[test]
fn instantiate_parser_witness_exact() {
    let hole = make_hole("h1", HoleSurface::Parser, 200_000);
    let registry = build_template_registry();
    let w = instantiate_witness(&registry[0], &hole, 0);
    assert_eq!(w.witness_id, "wt-h1-javascript-0");
    assert_eq!(w.files.len(), 1);
    assert_eq!(w.files[0].path, "witness.js");
    assert_eq!(
        w.files[0].content,
        "// Hole-witness: parser surface\n// Exercises unsupported grammar region.\n// Tags: hole=h1 dim=1 pers=200000 surf=parser\nconst x = \"prog_a\";\nconsole.log(x);\n"
    );
    assert_eq!(w.total_lines, 5);
    assert_eq!(
        w.tags.to_vec(),
        vec!["dim:1", "hole:h1", "kind:javascript", "surface:parser"]
    );
    assert_eq!(
        w.description,
        "Minimal javascript witness for hole h1 on parser surface (dim=1, pers=200000)"
    );
    assert_eq!(w.confidence_millionths, 800_000);
}

#[test]
fn placeholder_without_affected_programs() {
    let mut hole = make_hole("h9", HoleSurface::Stdlib, 200_000);
    hole.affected_programs.clear();
    let registry = build_template_registry();
    let w = instantiate_witness(&registry[8], &hole, 2);
    assert_eq!(w.witness_id, "wt-h9-javascript-2");
    assert!(w.files[0].content.contains("const result = \"hole_h9\";"));
}

#[test]
fn module_witness_has_three_files() {
    let hole = make_hole("m1", HoleSurface::Module, 400_000);
    let batch = generate_for_hole(&hole, &GeneratorConfig::default()).unwrap();
    assert_eq!(batch.witnesses.len(), 1);
    let w = &batch.witnesses[0];
    let paths: Vec<&str> = w.files.iter().map(|f| f.path.as_str()).collect();
    assert_eq!(paths, vec!["package.json", "index.js", "dep.js"]);
    let lines: Vec<usize> = w.files.iter().map(|f| f.line_count).collect();
    assert_eq!(lines, vec![6, 4, 2]);
    assert_eq!(w.total_lines, 12);
    assert!(w.files[2].content.contains("export const \"prog_a\" = 42;"));
}

#[test]
fn confidence_adjustments_exact() {
    let mut hole = make_hole("h", HoleSurface::Parser, 50_000);
    hole.dimension = 2;
    hole.affected_programs = vec!["a".into(), "b".into(), "c".into(), "d".into()];
    hole.representative_cycle.clear();
    assert_eq!(adjust_confidence(800_000, &hole), 500_000);
    assert_eq!(adjust_confidence(100_000, &hole), 0);
    let mut boost = make_hole("h", HoleSurface::Parser, 500_000);
    boost.affected_programs = vec!["a".into(), "b".into(), "c".into(), "d".into()];
    assert_eq!(adjust_confidence(980_000, &boost), MILLION);
}

#[test]
fn parser_and_runtime_batches_exact() {
    let cfg = GeneratorConfig::default();
    let parser = generate_for_hole(&make_hole("h1", HoleSurface::Parser, 200_000), &cfg).unwrap();
    let ids: Vec<&str> = parser.witnesses.iter().map(|w| w.witness_id.as_str()).collect();
    assert_eq!(ids, vec!["wt-h1-javascript-0", "wt-h1-typescript-1"]);
    let runtime = generate_for_hole(&make_hole("r1", HoleSurface::Runtime, 200_000), &cfg).unwrap();
    let kinds: Vec<WitnessProgramKind> = runtime.witnesses.iter().map(|w| w.kind).collect();
    assert_eq!(
        kinds,
        vec![WitnessProgramKind::JavaScript, WitnessProgramKind::AsyncGenerator]
    );
    assert!(runtime.has_confident_witness);
}

#[test]
fn line_limit_drops_witnesses() {
    let mut cfg = GeneratorConfig::default();
    cfg.max_witness_lines = 4;
    let batch = generate_for_hole(&make_hole("h1", HoleSurface::Parser, 200_000), &cfg).unwrap();
    assert!(batch.witnesses.is_empty());
    assert!(!batch.has_confident_witness);
}

#[test]
fn disallowed_kinds_are_skipped() {
    let mut cfg = GeneratorConfig::default();
    cfg.allowed_kinds = EnumSet::new();
    cfg.allowed_kinds.insert(WitnessProgramKind::TypeScript);
    let batch = generate_for_hole(&make_hole("h1", HoleSurface::Parser, 200_000), &cfg).unwrap();
    assert_eq!(batch.witnesses.len(), 1);
    assert_eq!(batch.witnesses[0].witness_id, "wt-h1-typescript-0");
}

#[test]
fn report_counters_exact() {
    let holes = vec![
        make_hole("a", HoleSurface::Parser, 500_000),
        make_hole("b", HoleSurface::Parser, 10_000),
    ];
    let report = generate_witnesses(&holes, &GeneratorConfig::default()).unwrap();
    assert_eq!(report.report_id, "genrpt-2");
    assert_eq!(report.epoch, SecurityEpoch::from_raw(1));
    assert_eq!(report.holes_processed, 2);
    assert_eq!(report.holes_covered, 1);
    assert_eq!(report.holes_uncovered, 1);
    assert_eq!(report.total_witnesses, 2);
    assert_eq!(report.coverage_millionths, 500_000);
    assert_eq!(report.outcome, GenerationOutcome::Partial);
    assert_eq!(
        collect_witness_ids(&report),
        vec!["wt-a-javascript-0".to_string(), "wt-a-typescript-1".to_string()]
    );
    assert_eq!(max_confidence(&report), 800_000);
    assert_eq!(min_confidence(&report), 800_000);
    let summary = report_summary(&report);
    assert_eq!(summary.surfaces_covered, 1);
    assert_eq!(summary.total_witnesses, 2);
}

#[test]
fn empty_hole_id_anywhere_refuses_report() {
    let holes = vec![
        make_hole("a", HoleSurface::Parser, 500_000),
        make_hole("", HoleSurface::Parser, 500_000),
    ];
    let err = generate_witnesses(&holes, &GeneratorConfig::default()).unwrap_err();
    assert_eq!(err, GeneratorError::InvalidHoleReference("empty hole_id".into()));
    assert_eq!(err.to_string(), "invalid hole reference: empty hole_id");
    let err = GeneratorError::GenerationFailed {
        hole_id: "h1".into(),
        reason: "timeout".into(),
    };
    assert_eq!(err.to_string(), "generation failed for h1: timeout");
}

#[test]
fn empty_report_has_no_confidence() {
    let holes = vec![make_hole("low", HoleSurface::React, 10_000)];
    let report = generate_witnesses(&holes, &GeneratorConfig::default()).unwrap();
    assert_eq!(report.outcome, GenerationOutcome::Empty);
    assert_eq!(max_confidence(&report), 0);
    assert_eq!(min_confidence(&report), 0);
    assert!(covered_surfaces(&report).is_empty());
    assert_eq!(surface_coverage(&report).get(&HoleSurface::React), Some(0));
    assert_eq!(surface_coverage(&report).get(&HoleSurface::Parser), None);
}

#[test]
fn confident_flag_uses_configured_minimum() {
    let hole = make_hole("h1", HoleSurface::Parser, 200_000);
    let strict = GeneratorConfig { min_confidence_millionths: 900_000, ..GeneratorConfig::default() };
    let b = generate_for_hole(&hole, &strict).unwrap();
    assert!(!b.witnesses.is_empty());
    assert!(b.witnesses.iter().all(|w| w.confidence_millionths < 900_000));
    assert!(!b.has_confident_witness);
    let lax = GeneratorConfig { min_confidence_millionths: 100_000, ..GeneratorConfig::default() };
    assert!(generate_for_hole(&hole, &lax).unwrap().has_confident_witness);
}

#[test]
fn uncovered_holes_with_witnesses_are_partial_not_empty() {
    let hole = HoleReference {
        hole_id: "r".to_string(),
        dimension: 2,
        persistence_millionths: 60_000,
        surface: HoleSurface::Runtime,
        representative_cycle: vec![],
        affected_programs: vec![],
    };
    let r = generate_witnesses(&[hole], &GeneratorConfig::default()).unwrap();
    assert_eq!(r.total_witnesses, 2);
    assert_eq!(r.holes_covered, 0);
    assert_eq!(r.outcome, GenerationOutcome::Partial);
}
