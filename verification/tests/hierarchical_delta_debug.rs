use franken_engine::foundation::SecurityEpoch;
use franken_engine::hierarchical_delta_debug::{
    delta_debug_corpus, run_delta_debug_corpus, DefectClass, DeltaDebugSpecimenFamily,
    DeltaDebugger, MinimalRepro, ProgramFragment, ReductionConfig, ReductionEvidenceInventory,
    ReductionLevel, ReductionStep, ReductionStrategy, StepOutcome, COMPONENT,
    DEFAULT_MAX_REDUCTION_STEPS, DEFAULT_MAX_REDUCTION_TIME_MS, DEFAULT_MIN_PROGRAM_SIZE,
    REDUCTION_SCHEMA_VERSION,
};


fn test_epoch() -> SecurityEpoch {
    SecurityEpoch::from_raw(1)
}

fn sample_program() -> &'static str {
    "function add(a, b) {\n  const result = a + b;\n  console.log(result);\n  return result;\n}\n\nfunction mul(a, b) {\n  return a * b;\n}\n\nadd(1, 2);\nmul(3, 4);"
}

// --- DefectClass ---

#[test]
fn defect_class_display_all() {
    let classes = vec![
        DefectClass::Crash,
        DefectClass::WrongOutput,
        DefectClass::PerformanceRegression,
        DefectClass::IfcViolation,
        DefectClass::DeterminismFailure,
        DefectClass::TypeUnsoundness,
        DefectClass::ModuleResolutionFailure,
        DefectClass::MemorySafetyViolation,
        DefectClass::Timeout,
        DefectClass::AssertionFailure,
        DefectClass::Custom { tag: "test".into() },
    ];
    for dc in &classes {
        let s = dc.to_string();
        assert!(!s.is_empty());
    }
}

#[test]
fn defect_class_ord() {
    assert!(DefectClass::Crash < DefectClass::WrongOutput);
}

// --- ReductionLevel ---

#[test]
fn reduction_level_all() {
    let levels = ReductionLevel::all();
    assert_eq!(levels.len(), 5);
    assert_eq!(levels[0], ReductionLevel::Module);
    assert_eq!(levels[4], ReductionLevel::Token);
}

#[test]
fn reduction_level_display() {
    for level in ReductionLevel::all() {
        let s = level.to_string();
        assert!(!s.is_empty());
    }
}

// --- ReductionStrategy ---

#[test]
fn reduction_strategy_display() {
    let strategies = vec![
        ReductionStrategy::DeltaDebugging,
        ReductionStrategy::HierarchicalDelta,
        ReductionStrategy::StructuredReduction,
        ReductionStrategy::SemanticPreserving,
        ReductionStrategy::TypeDirected,
    ];
    for s in &strategies {
        assert!(!s.to_string().is_empty());
    }
}

// --- ReductionConfig ---

#[test]
fn config_default_values() {
    let c = ReductionConfig::default();
    assert_eq!(c.max_steps, DEFAULT_MAX_REDUCTION_STEPS);
    assert_eq!(c.min_program_size, DEFAULT_MIN_PROGRAM_SIZE);
    assert_eq!(c.max_time_ms, DEFAULT_MAX_REDUCTION_TIME_MS);
    assert!(c.preserve_syntax);
    assert!(c.preserve_imports);
    assert!(!c.strategies.is_empty());
    assert!(!c.levels.is_empty());
}

#[test]
fn config_hash_deterministic() {
    let c1 = ReductionConfig::default();
    let c2 = ReductionConfig::default();
    assert_eq!(c1.config_hash(), c2.config_hash());
}

#[test]
fn config_hash_differs_on_change() {
    let c1 = ReductionConfig::default();
    let c2 = ReductionConfig {
        max_steps: 500,
        ..ReductionConfig::default()
    };
    assert_ne!(c1.config_hash(), c2.config_hash());
}

#[test]
fn config_display() {
    let c = ReductionConfig::default();
    let s = c.to_string();
    assert!(s.contains("reduction-config"));
}

// --- ProgramFragment ---

#[test]
fn fragment_new() {
    let frag = ProgramFragment::new(ReductionLevel::Statement, "let x = 1;", 0, 11);
    assert!(frag.fragment_id.starts_with("frag-"));
    assert_eq!(frag.size(), 11);
    assert!(frag.included);
    assert!(!frag.tested);
}

#[test]
fn fragment_id_deterministic() {
    let f1 = ProgramFragment::new(ReductionLevel::Statement, "let x = 1;", 0, 11);
    let f2 = ProgramFragment::new(ReductionLevel::Statement, "let y = 2;", 0, 11);
    // Same level and offsets = same ID (content doesn't affect ID)
    assert_eq!(f1.fragment_id, f2.fragment_id);
}

#[test]
fn fragment_id_differs_on_offset() {
    let f1 = ProgramFragment::new(ReductionLevel::Statement, "let x = 1;", 0, 11);
    let f2 = ProgramFragment::new(ReductionLevel::Statement, "let x = 1;", 10, 21);
    assert_ne!(f1.fragment_id, f2.fragment_id);
}

#[test]
fn fragment_mark_tested_removable() {
    let mut frag = ProgramFragment::new(ReductionLevel::Statement, "let x = 1;", 0, 11);
    frag.mark_tested(true);
    assert!(frag.tested);
    assert!(frag.removable);
    assert!(!frag.included);
}

#[test]
fn fragment_mark_tested_essential() {
    let mut frag = ProgramFragment::new(ReductionLevel::Statement, "let x = 1;", 0, 11);
    frag.mark_tested(false);
    assert!(frag.tested);
    assert!(!frag.removable);
    assert!(frag.included); // Still included
}

#[test]
fn fragment_display() {
    let frag = ProgramFragment::new(ReductionLevel::Statement, "let x = 1;", 0, 11);
    let s = frag.to_string();
    assert!(s.contains("fragment"));
    assert!(s.contains("statement"));
}

// --- StepOutcome ---

#[test]
fn step_outcome_display() {
    let outcomes = vec![
        StepOutcome::DefectPreserved,
        StepOutcome::DefectLost,
        StepOutcome::SyntaxError,
        StepOutcome::TestTimeout,
        StepOutcome::Skipped,
    ];
    for o in &outcomes {
        assert!(!o.to_string().is_empty());
    }
}

// --- ReductionStep ---

#[test]
fn reduction_step_content_hash_deterministic() {
    let step = ReductionStep {
        step_number: 1,
        level: ReductionLevel::Statement,
        strategy: ReductionStrategy::DeltaDebugging,
        removed_fragment_ids: vec!["frag-1".into()],
        outcome: StepOutcome::DefectPreserved,
        program_size_after: 100,
        progress: true,
    };
    let h1 = step.content_hash();
    let h2 = step.content_hash();
    assert_eq!(h1, h2);
    assert!(h1.starts_with("rs-"));
}

#[test]
fn reduction_step_display() {
    let step = ReductionStep {
        step_number: 3,
        level: ReductionLevel::Declaration,
        strategy: ReductionStrategy::HierarchicalDelta,
        removed_fragment_ids: vec!["frag-a".into(), "frag-b".into()],
        outcome: StepOutcome::DefectLost,
        program_size_after: 200,
        progress: false,
    };
    let s = step.to_string();
    assert!(s.contains("step #3"));
    assert!(s.contains("removed=2"));
}

// --- DeltaDebugger ---

#[test]
fn debugger_fragment_creates_fragments() {
    let mut debugger = DeltaDebugger::new(
        sample_program(),
        DefectClass::Crash,
        ReductionConfig::default(),
        test_epoch(),
    );
    debugger.fragment();
    assert!(debugger.fragment_count() > 0);
}

#[test]
fn debugger_fragments_at_level() {
    let mut debugger = DeltaDebugger::new(
        sample_program(),
        DefectClass::Crash,
        ReductionConfig::default(),
        test_epoch(),
    );
    debugger.fragment();
    let decl_frags = debugger.fragments_at_level(ReductionLevel::Declaration);
    assert!(!decl_frags.is_empty());
}

#[test]
fn debugger_try_remove_preserves_defect() {
    let mut debugger = DeltaDebugger::new(
        sample_program(),
        DefectClass::Crash,
        ReductionConfig::default(),
        test_epoch(),
    );
    debugger.fragment();

    // Oracle always says defect is preserved
    let decl_ids: Vec<String> = debugger
        .fragments_at_level(ReductionLevel::Declaration)
        .iter()
        .take(1)
        .map(|f| f.fragment_id.clone())
        .collect();

    if !decl_ids.is_empty() {
        let outcome = debugger.try_remove(&decl_ids, |_| StepOutcome::DefectPreserved);
        assert_eq!(outcome, StepOutcome::DefectPreserved);
        assert_eq!(debugger.steps().len(), 1);
        assert!(debugger.steps()[0].progress);
    }
}

#[test]
fn debugger_try_remove_defect_lost() {
    let mut debugger = DeltaDebugger::new(
        sample_program(),
        DefectClass::WrongOutput,
        ReductionConfig::default(),
        test_epoch(),
    );
    debugger.fragment();

    let decl_ids: Vec<String> = debugger
        .fragments_at_level(ReductionLevel::Declaration)
        .iter()
        .take(1)
        .map(|f| f.fragment_id.clone())
        .collect();

    if !decl_ids.is_empty() {
        let outcome = debugger.try_remove(&decl_ids, |_| StepOutcome::DefectLost);
        assert_eq!(outcome, StepOutcome::DefectLost);
        assert!(!debugger.steps()[0].progress);
    }
}

#[test]
fn debugger_reduce_full_pipeline() {
    let mut debugger = DeltaDebugger::new(
        sample_program(),
        DefectClass::Crash,
        ReductionConfig::default(),
        test_epoch(),
    );

    // Oracle: defect preserved if source contains "add"
    let repro = debugger.reduce(|source| {
        if source.contains("add") {
            StepOutcome::DefectPreserved
        } else {
            StepOutcome::DefectLost
        }
    });

    assert!(repro.repro_id.starts_with("mr-"));
    assert!(repro.source.contains("add"));
    assert!(repro.reduced_size <= repro.original_size);
    assert!(repro.stable);
}

#[test]
fn debugger_reduce_achieves_reduction() {
    let source = "line1\nline2\ndefect_line\nline3\nline4\n\nblock2_a\nblock2_b";
    let mut debugger = DeltaDebugger::new(
        source,
        DefectClass::AssertionFailure,
        ReductionConfig::default(),
        test_epoch(),
    );

    let repro = debugger.reduce(|s| {
        if s.contains("defect_line") {
            StepOutcome::DefectPreserved
        } else {
            StepOutcome::DefectLost
        }
    });

    // Should have reduced size
    assert!(repro.reduced_size <= repro.original_size);
    assert!(repro.source.contains("defect_line"));
}

#[test]
fn debugger_max_steps_respected() {
    let config = ReductionConfig {
        max_steps: 3,
        ..ReductionConfig::default()
    };
    let mut debugger =
        DeltaDebugger::new(sample_program(), DefectClass::Crash, config, test_epoch());

    let _repro = debugger.reduce(|_| StepOutcome::DefectLost);
    assert!(debugger.steps().len() <= 3);
}

#[test]
fn debugger_summary() {
    let mut debugger = DeltaDebugger::new(
        sample_program(),
        DefectClass::Crash,
        ReductionConfig::default(),
        test_epoch(),
    );
    debugger.fragment();
    let summary = debugger.summary();
    assert_eq!(summary.defect_class, DefectClass::Crash);
    assert_eq!(summary.original_size, sample_program().len() as u32);
}

// --- MinimalRepro ---

#[test]
fn minimal_repro_display() {
    let mut debugger = DeltaDebugger::new(
        "let x = 1;\nlet y = 2;",
        DefectClass::WrongOutput,
        ReductionConfig::default(),
        test_epoch(),
    );
    let repro = debugger.reduce(|_| StepOutcome::DefectPreserved);
    let s = repro.to_string();
    assert!(s.contains("minimal-repro"));
    assert!(s.contains("wrong-output"));
}

#[test]
fn minimal_repro_reduction_percentage() {
    let repro = MinimalRepro {
        repro_id: "mr-test".into(),
        schema_version: REDUCTION_SCHEMA_VERSION.to_string(),
        defect_class: DefectClass::Crash,
        source: "x".into(),
        original_size: 100,
        reduced_size: 25,
        reduction_ratio_millionths: 750_000,
        total_steps: 10,
        progress_steps: 5,
        original_fragment_count: 20,
        remaining_fragment_count: 5,
        essential_fragment_ids: vec![],
        config: ReductionConfig::default(),
        epoch: test_epoch(),
        stable: true,
    };
    assert_eq!(repro.reduction_percentage(), 75);
}

// --- EvidenceInventory ---

#[test]
fn evidence_inventory_from_repros() {
    let repro = MinimalRepro {
        repro_id: "mr-test".into(),
        schema_version: REDUCTION_SCHEMA_VERSION.to_string(),
        defect_class: DefectClass::Crash,
        source: "x".into(),
        original_size: 100,
        reduced_size: 25,
        reduction_ratio_millionths: 750_000,
        total_steps: 10,
        progress_steps: 5,
        original_fragment_count: 20,
        remaining_fragment_count: 5,
        essential_fragment_ids: vec![],
        config: ReductionConfig::default(),
        epoch: test_epoch(),
        stable: true,
    };
    let inv = ReductionEvidenceInventory::from_repros(&[repro]);
    assert_eq!(inv.session_count, 1);
    assert_eq!(inv.total_steps, 10);
    assert_eq!(inv.avg_reduction_millionths, 750_000);
}

#[test]
fn evidence_inventory_empty() {
    let inv = ReductionEvidenceInventory::from_repros(&[]);
    assert_eq!(inv.session_count, 0);
    assert_eq!(inv.avg_reduction_millionths, 0);
}

// --- Corpus ---

#[test]
fn corpus_non_empty() {
    let corpus = delta_debug_corpus();
    assert!(!corpus.is_empty());
}

#[test]
fn run_corpus_all_pass() {
    let results = run_delta_debug_corpus();
    assert!(results.iter().all(|(_, passed)| *passed));
}

#[test]
fn specimen_family_display() {
    let families = vec![
        DeltaDebugSpecimenFamily::SingleFile,
        DeltaDebugSpecimenFamily::MultiStatement,
        DeltaDebugSpecimenFamily::ImportDependent,
        DeltaDebugSpecimenFamily::ReactComponent,
        DeltaDebugSpecimenFamily::PerformanceLoop,
    ];
    for f in &families {
        assert!(!f.to_string().is_empty());
    }
}

// --- Constants ---

#[test]
fn constants_set() {
    assert_eq!(COMPONENT, "hierarchical_delta_debug");
    assert!(!REDUCTION_SCHEMA_VERSION.is_empty());
    let dmrs = DEFAULT_MAX_REDUCTION_STEPS;
    let dmps = DEFAULT_MIN_PROGRAM_SIZE;
    let dmrt = DEFAULT_MAX_REDUCTION_TIME_MS;
    assert!(dmrs > 0);
    assert!(dmps > 0);
    assert!(dmrt > 0);
}


// --- Exact behaviour ---

#[test]
fn fragment_plan_of_sample_program() {
    let mut debugger = DeltaDebugger::new(
        sample_program(),
        DefectClass::Crash,
        ReductionConfig::default(),
        test_epoch(),
    );
    debugger.fragment();
    assert_eq!(debugger.fragment_count(), 11);
    let decls = debugger.fragments_at_level(ReductionLevel::Declaration);
    let ranges: Vec<(u32, u32)> = decls.iter().map(|f| (f.start_offset, f.end_offset)).collect();
    assert_eq!(ranges, vec![(0, 86), (88, 126), (128, 149)]);
    let stmts = debugger.fragments_at_level(ReductionLevel::Statement);
    let ranges: Vec<(u32, u32)> = stmts.iter().map(|f| (f.start_offset, f.end_offset)).collect();
    assert_eq!(
        ranges,
        vec![(0, 20), (21, 44), (45, 67), (68, 84), (88, 108), (109, 124), (128, 138), (139, 149)]
    );
    assert_eq!(stmts[0].source, "function add(a, b) {");
    assert_eq!(stmts[0].parent_id.as_deref(), Some(decls[0].fragment_id.as_str()));
    assert_eq!(stmts[7].parent_id.as_deref(), Some(decls[2].fragment_id.as_str()));
    assert!(decls.iter().all(|f| f.parent_id.is_none()));
}

#[test]
fn fragment_offsets_count_bytes() {
    let mut debugger = DeltaDebugger::new(
        "h\u{e9}llo w\u{f6}rld\n\nabc defghij",
        DefectClass::Crash,
        ReductionConfig::default(),
        test_epoch(),
    );
    debugger.fragment();
    let decls = debugger.fragments_at_level(ReductionLevel::Declaration);
    assert_eq!(decls.len(), 2);
    assert_eq!((decls[0].start_offset, decls[0].end_offset), (0, 13));
    assert_eq!((decls[1].start_offset, decls[1].end_offset), (15, 26));
}

#[test]
fn blank_lines_are_not_statements() {
    let mut debugger = DeltaDebugger::new(
        "first line here\n      \n\t\t\t\nlast line here",
        DefectClass::Crash,
        ReductionConfig::default(),
        test_epoch(),
    );
    debugger.fragment();
    let stmts = debugger.fragments_at_level(ReductionLevel::Statement);
    let texts: Vec<&str> = stmts.iter().map(|f| f.source.as_str()).collect();
    assert_eq!(texts, vec!["first line here", "last line here"]);
}

#[test]
fn identifier_formats() {
    let frag = ProgramFragment::new(ReductionLevel::Statement, "let x = 1;", 0, 11);
    assert_eq!(frag.fragment_id.len(), "frag-".len() + 12);
    let hash = ReductionConfig::default().config_hash();
    assert!(hash.starts_with("rc-"));
    assert_eq!(hash.len(), 3 + 16);
    let id = MinimalRepro::compute_id(&DefectClass::Crash, "x");
    assert!(id.starts_with("mr-"));
    assert_eq!(id.len(), 3 + 16);
    assert_ne!(id, MinimalRepro::compute_id(&DefectClass::Timeout, "x"));
    assert_ne!(id, MinimalRepro::compute_id(&DefectClass::Crash, "y"));
}

#[test]
fn fragment_id_differs_on_level() {
    let f1 = ProgramFragment::new(ReductionLevel::Statement, "let x = 1;", 0, 11);
    let f2 = ProgramFragment::new(ReductionLevel::Declaration, "let x = 1;", 0, 11);
    assert_ne!(f1.fragment_id, f2.fragment_id);
}

#[test]
fn custom_defect_rendering() {
    let dc = DefectClass::Custom { tag: "leak".into() };
    assert_eq!(dc.to_string(), "custom(leak)");
    assert_eq!(DefectClass::ModuleResolutionFailure.to_string(), "module-resolution");
    assert_eq!(dc.clone(), dc);
}

#[test]
fn renderings_exact() {
    let frag = ProgramFragment::new(ReductionLevel::Statement, "let x = 1;", 3, 14);
    assert_eq!(
        frag.to_string(),
        format!("fragment {} (level=statement, 3-14, 11B, included=true)", frag.fragment_id)
    );
    let step = ReductionStep {
        step_number: 3,
        level: ReductionLevel::Declaration,
        strategy: ReductionStrategy::HierarchicalDelta,
        removed_fragment_ids: vec!["frag-a".into(), "frag-b".into()],
        outcome: StepOutcome::DefectLost,
        program_size_after: 200,
        progress: false,
    };
    assert_eq!(
        step.to_string(),
        "step #3 (declaration/hierarchical, removed=2, outcome=defect-lost, size=200)"
    );
    assert_eq!(
        ReductionConfig::default().to_string(),
        "reduction-config(max-steps=1000, syntax=true, imports=true)"
    );
    let reversed = ProgramFragment::new(ReductionLevel::Token, "x", 9, 4);
    assert_eq!(reversed.size(), 0);
}

#[test]
fn try_remove_skipped_when_budget_spent() {
    let config = ReductionConfig {
        max_steps: 0,
        ..ReductionConfig::default()
    };
    let mut debugger = DeltaDebugger::new(sample_program(), DefectClass::Crash, config, test_epoch());
    debugger.fragment();
    let outcome = debugger.try_remove(&[], |_| StepOutcome::DefectPreserved);
    assert_eq!(outcome, StepOutcome::Skipped);
    assert!(debugger.steps().is_empty());
}

#[test]
fn try_remove_skipped_when_candidate_too_small() {
    let mut debugger = DeltaDebugger::new(
        "tiny\n\nsmall one here",
        DefectClass::Crash,
        ReductionConfig::default(),
        test_epoch(),
    );
    debugger.fragment();
    let ids: Vec<String> = debugger
        .fragments_at_level(ReductionLevel::Declaration)
        .iter()
        .map(|f| f.fragment_id.clone())
        .collect();
    let all: Vec<String> = debugger
        .fragments_at_level(ReductionLevel::Statement)
        .iter()
        .map(|f| f.fragment_id.clone())
        .chain(ids)
        .collect();
    let outcome = debugger.try_remove(&all, |_| StepOutcome::DefectPreserved);
    assert_eq!(outcome, StepOutcome::Skipped);
    assert!(debugger.steps().is_empty());
}

#[test]
fn try_remove_records_step_fields() {
    let mut debugger = DeltaDebugger::new(
        sample_program(),
        DefectClass::Crash,
        ReductionConfig::default(),
        test_epoch(),
    );
    debugger.fragment();
    let id = debugger.fragments_at_level(ReductionLevel::Declaration)[1]
        .fragment_id
        .clone();
    let seen = std::cell::RefCell::new(String::new());
    let outcome = debugger.try_remove(&[id.clone()], |s| {
        *seen.borrow_mut() = s.to_string();
        StepOutcome::DefectPreserved
    });
    assert_eq!(outcome, StepOutcome::DefectPreserved);
    let step = &debugger.steps()[0];
    assert_eq!(step.step_number, 1);
    assert_eq!(step.level, ReductionLevel::Declaration);
    assert_eq!(step.strategy, ReductionStrategy::HierarchicalDelta);
    assert_eq!(step.removed_fragment_ids, vec![id.clone()]);
    assert_eq!(step.program_size_after as usize, seen.borrow().len());
    assert!(step.progress);
    // The reproduction is the program the oracle accepted: the source with
    // the removed block cut out.
    let repro = debugger.build_repro();
    assert_eq!(repro.source, *seen.borrow());
    assert_eq!(repro.remaining_fragment_count, 10);
}

#[test]
fn reduce_keeps_a_program_the_oracle_accepted() {
    let source = "line1\nline2\ndefect_line\nline3\nline4\n\nblock2_a\nblock2_b";
    let mut debugger = DeltaDebugger::new(
        source,
        DefectClass::AssertionFailure,
        ReductionConfig::default(),
        test_epoch(),
    );
    let oracle = |s: &str| {
        if s.contains("defect_line") {
            StepOutcome::DefectPreserved
        } else {
            StepOutcome::DefectLost
        }
    };
    let repro = debugger.reduce(oracle);
    assert_eq!(repro.source, "\n\ndefect_line\n\n\n\n");
    assert_eq!(oracle(&repro.source), StepOutcome::DefectPreserved);
    assert_eq!(repro.total_steps, 9);
    assert_eq!(repro.progress_steps, 7);
    assert_eq!(repro.original_size, 54);
    assert_eq!(repro.reduced_size, 17);
    assert_eq!(repro.reduction_ratio_millionths, 37 * 1_000_000 / 54);
    assert_eq!(
        repro.repro_id,
        MinimalRepro::compute_id(&DefectClass::AssertionFailure, "\n\ndefect_line\n\n\n\n")
    );
}

#[test]
fn reduce_without_progress_keeps_everything() {
    let mut debugger = DeltaDebugger::new(
        sample_program(),
        DefectClass::Crash,
        ReductionConfig::default(),
        test_epoch(),
    );
    let repro = debugger.reduce(|_| StepOutcome::DefectLost);
    assert_eq!(repro.total_steps, 11);
    assert_eq!(repro.progress_steps, 0);
    assert_eq!(repro.remaining_fragment_count, 11);
    assert_eq!(repro.reduced_size, 149);
    assert_eq!(repro.source, sample_program());
    assert_eq!(repro.essential_fragment_ids.len(), 0);
    assert_eq!(repro.reduction_percentage(), 0);
}

#[test]
fn summary_lists_levels_and_strategies_once() {
    let mut debugger = DeltaDebugger::new(
        sample_program(),
        DefectClass::Crash,
        ReductionConfig::default(),
        test_epoch(),
    );
    let repro = debugger.reduce(|_| StepOutcome::DefectLost);
    let summary = debugger.summary();
    assert_eq!(
        summary.levels_attempted,
        vec![ReductionLevel::Declaration, ReductionLevel::Statement]
    );
    assert_eq!(summary.strategies_used, vec![ReductionStrategy::HierarchicalDelta]);
    assert_eq!(summary.repro_id, repro.repro_id);
    assert_eq!(summary.total_steps, 11);
}

#[test]
fn reduction_percentage_of_empty_original() {
    let repro = MinimalRepro {
        repro_id: "mr-empty".into(),
        schema_version: REDUCTION_SCHEMA_VERSION.to_string(),
        defect_class: DefectClass::Timeout,
        source: String::new(),
        original_size: 0,
        reduced_size: 0,
        reduction_ratio_millionths: 0,
        total_steps: 0,
        progress_steps: 0,
        original_fragment_count: 0,
        remaining_fragment_count: 0,
        essential_fragment_ids: vec![],
        config: ReductionConfig::default(),
        epoch: test_epoch(),
        stable: true,
    };
    assert_eq!(repro.reduction_percentage(), 0);
    assert_eq!(
        repro.to_string(),
        "minimal-repro mr-empty (defect=timeout, 0B\u{2192}0B, 0% reduction, 0 steps, stable=true)"
    );
}

#[test]
fn evidence_inventory_averages() {
    let make = |steps: u32, ratio: u64| MinimalRepro {
        repro_id: "mr-x".into(),
        schema_version: REDUCTION_SCHEMA_VERSION.to_string(),
        defect_class: DefectClass::Crash,
        source: "x".into(),
        original_size: 10,
        reduced_size: 5,
        reduction_ratio_millionths: ratio,
        total_steps: steps,
        progress_steps: 1,
        original_fragment_count: 2,
        remaining_fragment_count: 1,
        essential_fragment_ids: vec![],
        config: ReductionConfig::default(),
        epoch: test_epoch(),
        stable: true,
    };
    let inv = ReductionEvidenceInventory::from_repros(&[make(3, 500_000), make(4, 250_001)]);
    assert_eq!(inv.session_count, 2);
    assert_eq!(inv.total_steps, 7);
    assert_eq!(inv.total_progress_steps, 2);
    assert_eq!(inv.avg_reduction_millionths, 375_000);
    assert_eq!(inv.component, COMPONENT);
}

#[test]
fn corpus_exact() {
    let corpus = delta_debug_corpus();
    assert_eq!(corpus.len(), 5);
    assert_eq!(corpus[0].0, DeltaDebugSpecimenFamily::SingleFile);
    assert_eq!(corpus[3].1, "React component with JSX");
    assert_eq!(DeltaDebugSpecimenFamily::PerformanceLoop.to_string(), "perf-loop");
    let results = run_delta_debug_corpus();
    assert_eq!(results.len(), 5);
    assert_eq!(results[4].0, DeltaDebugSpecimenFamily::PerformanceLoop);
}

#[test]
fn reduction_never_grows_the_program() {
    let mut d = DeltaDebugger::new(
        "let x = 1;\nlet y = 2;",
        DefectClass::Crash,
        ReductionConfig::default(),
        test_epoch(),
    );
    let r = d.reduce(|_| StepOutcome::DefectLost);
    assert_eq!(r.original_size, 21);
    assert!(r.reduced_size <= r.original_size);
    assert_eq!(r.source, "let x = 1;\nlet y = 2;");
}
