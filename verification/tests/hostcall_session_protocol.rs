use std::collections::BTreeSet;
use franken_engine::foundation::{ContentHash, SecurityEpoch};
use franken_engine::hostcall_session_protocol::{AntiReplayLedger, DegradedModePolicy, DegradedOperationKind, DegradedSeverity, KeyStagePurpose, ProtocolError, ReplayVerdict, SessionKeySchedule, run_hsp_corpus, hsp_corpus, SessionPhaseTag, SessionProtocolState, TransitionTrigger, is_valid_transition, valid_transitions};



fn test_epoch() -> SecurityEpoch {
    SecurityEpoch::from_raw(1)
}

fn test_hash() -> ContentHash {
    ContentHash::compute(b"test-transcript")
}

fn make_state() -> SessionProtocolState {
    SessionProtocolState::new(
        "sess-001".into(),
        "ext-alpha".into(),
        "host-bravo".into(),
        64,
        100,
    )
}

fn make_key_schedule() -> SessionKeySchedule {
    let mut ks = SessionKeySchedule::new(
        test_epoch(),
        "sess-001".into(),
        "ext-alpha".into(),
        "host-bravo".into(),
        test_hash(),
    );
    for purpose in KeyStagePurpose::ALL.iter() {
        ks.record_stage(
            *purpose,
            ContentHash::compute(purpose.domain_label().as_bytes()),
        );
    }
    ks
}

// --- SessionPhaseTag tests ---

#[test]
fn phase_tag_terminal() {
    assert!(SessionPhaseTag::Closed.is_terminal());
    assert!(!SessionPhaseTag::Established.is_terminal());
    assert!(!SessionPhaseTag::DegradedOpen.is_terminal());
}

#[test]
fn phase_tag_permits_data() {
    assert!(SessionPhaseTag::Established.permits_data());
    assert!(SessionPhaseTag::DegradedOpen.permits_data());
    assert!(!SessionPhaseTag::Uninit.permits_data());
    assert!(!SessionPhaseTag::Negotiating.permits_data());
    assert!(!SessionPhaseTag::Closing.permits_data());
    assert!(!SessionPhaseTag::Closed.permits_data());
}

#[test]
fn phase_tag_all_variants() {
    assert_eq!(SessionPhaseTag::ALL.len(), 6);
}

#[test]
fn phase_tag_display() {
    assert_eq!(SessionPhaseTag::Uninit.to_string(), "uninit");
    assert_eq!(SessionPhaseTag::DegradedOpen.to_string(), "degraded_open");
    assert_eq!(SessionPhaseTag::Closed.to_string(), "closed");
}


// --- Transition table tests ---

#[test]
fn valid_transition_uninit_to_negotiating() {
    assert!(is_valid_transition(
        SessionPhaseTag::Uninit,
        SessionPhaseTag::Negotiating
    ));
}

#[test]
fn valid_transition_negotiating_to_established() {
    assert!(is_valid_transition(
        SessionPhaseTag::Negotiating,
        SessionPhaseTag::Established
    ));
}

#[test]
fn valid_transition_negotiating_to_closed() {
    assert!(is_valid_transition(
        SessionPhaseTag::Negotiating,
        SessionPhaseTag::Closed
    ));
}

#[test]
fn valid_transition_established_to_degraded() {
    assert!(is_valid_transition(
        SessionPhaseTag::Established,
        SessionPhaseTag::DegradedOpen
    ));
}

#[test]
fn valid_transition_established_to_closing() {
    assert!(is_valid_transition(
        SessionPhaseTag::Established,
        SessionPhaseTag::Closing
    ));
}

#[test]
fn valid_transition_degraded_to_established() {
    assert!(is_valid_transition(
        SessionPhaseTag::DegradedOpen,
        SessionPhaseTag::Established
    ));
}

#[test]
fn valid_transition_closing_to_closed() {
    assert!(is_valid_transition(
        SessionPhaseTag::Closing,
        SessionPhaseTag::Closed
    ));
}

#[test]
fn invalid_transition_closed_to_anything() {
    for tag in SessionPhaseTag::ALL.iter() {
        assert!(!is_valid_transition(SessionPhaseTag::Closed, *tag));
    }
}

#[test]
fn invalid_transition_self_loops() {
    for tag in SessionPhaseTag::ALL.iter() {
        assert!(!is_valid_transition(*tag, *tag));
    }
}

#[test]
fn invalid_transition_uninit_to_established() {
    assert!(!is_valid_transition(
        SessionPhaseTag::Uninit,
        SessionPhaseTag::Established
    ));
}

#[test]
fn invalid_transition_negotiating_to_degraded() {
    assert!(!is_valid_transition(
        SessionPhaseTag::Negotiating,
        SessionPhaseTag::DegradedOpen
    ));
}

#[test]
fn valid_transitions_table_not_empty() {
    let table = valid_transitions();
    assert!(table.len() >= 10);
}

// --- TransitionTrigger tests ---

#[test]
fn trigger_display() {
    let t = TransitionTrigger::HandshakeInitiated;
    assert_eq!(t.to_string(), "handshake_initiated");

    let t2 = TransitionTrigger::ReplayThresholdBreached {
        drop_count: 10,
        window_ticks: 500,
    };
    assert!(t2.to_string().contains("10"));
}


// --- Key schedule tests ---

#[test]
fn key_schedule_new_is_incomplete() {
    let ks = SessionKeySchedule::new(
        test_epoch(),
        "s1".into(),
        "e1".into(),
        "h1".into(),
        test_hash(),
    );
    assert!(!ks.is_complete());
    assert!(ks.derived_stages.is_empty());
}

#[test]
fn key_schedule_complete_after_all_stages() {
    let ks = make_key_schedule();
    assert!(ks.is_complete());
    assert_eq!(ks.derived_stages.len(), 4);
}

#[test]
fn key_schedule_epoch_validation() {
    let ks = make_key_schedule();
    assert!(ks.is_valid_for_epoch(test_epoch()));
    assert!(!ks.is_valid_for_epoch(SecurityEpoch::from_raw(99)));
}

#[test]
fn key_schedule_binding_hash_deterministic() {
    let ks1 = make_key_schedule();
    let ks2 = make_key_schedule();
    assert_eq!(ks1.binding_hash(), ks2.binding_hash());
}

#[test]
fn key_schedule_binding_hash_varies_with_session() {
    let ks1 = make_key_schedule();
    let mut ks2 = make_key_schedule();
    ks2.session_id = "sess-002".into();
    assert_ne!(ks1.binding_hash(), ks2.binding_hash());
}

#[test]
fn key_stage_purpose_domain_labels_unique() {
    let labels: Vec<&str> = KeyStagePurpose::ALL
        .iter()
        .map(|p| p.domain_label())
        .collect();
    let unique: std::collections::BTreeSet<&str> = labels.iter().copied().collect();
    assert_eq!(labels.len(), unique.len());
}

#[test]
fn key_stage_purpose_display() {
    assert_eq!(KeyStagePurpose::MasterSecret.to_string(), "master_secret");
    assert_eq!(KeyStagePurpose::DataPlaneMac.to_string(), "data_plane_mac");
}


// --- Anti-replay ledger tests ---

#[test]
fn ledger_accepts_first_sequence() {
    let mut ledger = AntiReplayLedger::new("sess".into(), 64, 100);
    let v = ledger.check_and_record(1, 100, None);
    assert_eq!(v, ReplayVerdict::Accept);
    assert_eq!(ledger.total_accepted(), 1);
}

#[test]
fn ledger_rejects_replay() {
    let mut ledger = AntiReplayLedger::new("sess".into(), 64, 100);
    ledger.check_and_record(1, 100, None);
    let v = ledger.check_and_record(1, 101, None);
    assert_eq!(v, ReplayVerdict::Replay);
    assert_eq!(ledger.total_replays(), 1);
}

#[test]
fn ledger_accepts_monotonic_sequences() {
    let mut ledger = AntiReplayLedger::new("sess".into(), 64, 100);
    for seq in 1..=10 {
        let v = ledger.check_and_record(seq, seq * 10, None);
        assert_eq!(v, ReplayVerdict::Accept);
    }
    assert_eq!(ledger.total_accepted(), 10);
}

#[test]
fn ledger_accepts_out_of_order_within_window() {
    let mut ledger = AntiReplayLedger::new("sess".into(), 64, 100);
    ledger.check_and_record(5, 100, None);
    let v = ledger.check_and_record(3, 101, None);
    assert_eq!(v, ReplayVerdict::Accept);
    assert_eq!(ledger.total_accepted(), 2);
}

#[test]
fn ledger_rejects_below_floor() {
    let mut ledger = AntiReplayLedger::new("sess".into(), 4, 100);
    // Push ceiling far enough that floor advances.
    for seq in 1..=10 {
        ledger.check_and_record(seq, seq, None);
    }
    // Window floor should be at least 6 (ceiling=10, width=4).
    let v = ledger.check_and_record(1, 11, None);
    assert_eq!(v, ReplayVerdict::BelowFloor);
    assert_eq!(ledger.total_below_floor(), 1);
}

#[test]
fn ledger_rejects_above_ceiling() {
    let mut ledger = AntiReplayLedger::new("sess".into(), 4, 100);
    ledger.check_and_record(1, 1, None);
    // Way above ceiling + window_width.
    let v = ledger.check_and_record(100, 2, None);
    assert_eq!(v, ReplayVerdict::AboveCeiling);
}

#[test]
fn ledger_window_advances() {
    let mut ledger = AntiReplayLedger::new("sess".into(), 4, 100);
    for seq in 1..=10 {
        ledger.check_and_record(seq, seq, None);
    }
    assert!(ledger.window_floor() >= 6);
    assert_eq!(ledger.window_ceiling(), 10);
}

#[test]
fn ledger_audit_trail_bounded() {
    let mut ledger = AntiReplayLedger::new("sess".into(), 1000, 5);
    for seq in 1..=20 {
        ledger.check_and_record(seq, seq, None);
    }
    assert!(ledger.audit_trail().len() <= 5);
}

#[test]
fn ledger_state_hash_deterministic() {
    let mut l1 = AntiReplayLedger::new("sess".into(), 64, 100);
    let mut l2 = AntiReplayLedger::new("sess".into(), 64, 100);
    for seq in 1..=5 {
        l1.check_and_record(seq, seq, None);
        l2.check_and_record(seq, seq, None);
    }
    assert_eq!(l1.state_hash(), l2.state_hash());
}

#[test]
fn ledger_state_hash_varies_on_divergence() {
    let mut l1 = AntiReplayLedger::new("sess".into(), 64, 100);
    let mut l2 = AntiReplayLedger::new("sess".into(), 64, 100);
    l1.check_and_record(1, 1, None);
    l2.check_and_record(2, 1, None);
    assert_ne!(l1.state_hash(), l2.state_hash());
}

#[test]
fn ledger_total_checked() {
    let mut ledger = AntiReplayLedger::new("sess".into(), 64, 100);
    ledger.check_and_record(1, 1, None);
    ledger.check_and_record(1, 2, None); // replay
    ledger.check_and_record(2, 3, None);
    assert_eq!(ledger.total_checked(), 3);
    assert_eq!(ledger.total_accepted(), 2);
    assert_eq!(ledger.total_replays(), 1);
}

#[test]
fn ledger_window_size_within_bounds() {
    let mut ledger = AntiReplayLedger::new("sess".into(), 4, 100);
    for seq in 1..=20 {
        ledger.check_and_record(seq, seq, None);
    }
    // Window should contain at most window_width entries.
    assert!(ledger.window_size() <= 5);
}

// --- ReplayVerdict tests ---

#[test]
fn replay_verdict_display() {
    assert_eq!(ReplayVerdict::Accept.to_string(), "accept");
    assert_eq!(ReplayVerdict::Replay.to_string(), "replay");
    assert_eq!(ReplayVerdict::BelowFloor.to_string(), "below_floor");
    assert_eq!(ReplayVerdict::AboveCeiling.to_string(), "above_ceiling");
}


// --- Degraded-mode policy tests ---

#[test]
fn strict_policy_blocks_all_data() {
    let p = DegradedModePolicy::strict(DegradedSeverity::IdentityCompromised);
    assert!(!p.permits_any_data());
    assert!(!p.is_operation_allowed(DegradedOperationKind::ReadHostcall));
    assert!(!p.is_operation_allowed(DegradedOperationKind::WriteHostcall));
    assert!(p.is_operation_allowed(DegradedOperationKind::Close));
}

#[test]
fn permissive_policy_allows_reads() {
    let p = DegradedModePolicy::permissive(DegradedSeverity::PartialMacFailure);
    assert!(p.permits_any_data());
    assert!(p.is_operation_allowed(DegradedOperationKind::ReadHostcall));
    assert!(!p.is_operation_allowed(DegradedOperationKind::WriteHostcall));
}

#[test]
fn stale_key_policy_allows_writes() {
    let p = DegradedModePolicy::for_severity(DegradedSeverity::StaleKey);
    assert!(p.allow_write_hostcalls);
    assert!(p.auto_rekey);
}

#[test]
fn degraded_severity_ordering() {
    assert!(DegradedSeverity::StaleKey < DegradedSeverity::PartialMacFailure);
    assert!(DegradedSeverity::PartialMacFailure < DegradedSeverity::IdentityCompromised);
}

#[test]
fn degraded_severity_display() {
    assert_eq!(DegradedSeverity::StaleKey.to_string(), "stale_key");
    assert_eq!(
        DegradedSeverity::IdentityCompromised.to_string(),
        "identity_compromised"
    );
}

#[test]
fn degraded_operation_display() {
    assert_eq!(
        DegradedOperationKind::ReadHostcall.to_string(),
        "read_hostcall"
    );
    assert_eq!(DegradedOperationKind::Close.to_string(), "close");
}


// --- ProtocolError tests ---

#[test]
fn protocol_error_display() {
    let e = ProtocolError::IllegalTransition {
        from: SessionPhaseTag::Uninit,
        to: SessionPhaseTag::Established,
    };
    assert!(e.to_string().contains("illegal"));

    let e2 = ProtocolError::EpochMismatch {
        schedule_epoch: SecurityEpoch::from_raw(1),
        current_epoch: SecurityEpoch::from_raw(2),
    };
    assert!(e2.to_string().contains("epoch"));
}


// --- Protocol state machine tests ---

#[test]
fn state_machine_initial_phase() {
    let state = make_state();
    assert_eq!(state.phase, SessionPhaseTag::Uninit);
}

#[test]
fn state_machine_valid_transition_sequence() {
    let mut state = make_state();
    state
        .transition(
            SessionPhaseTag::Negotiating,
            TransitionTrigger::HandshakeInitiated,
            1,
        )
        .unwrap();
    assert_eq!(state.phase, SessionPhaseTag::Negotiating);

    state
        .transition(
            SessionPhaseTag::Established,
            TransitionTrigger::HandshakeCompleted,
            2,
        )
        .unwrap();
    assert_eq!(state.phase, SessionPhaseTag::Established);
}

#[test]
fn state_machine_invalid_transition_rejected() {
    let mut state = make_state();
    let result = state.transition(
        SessionPhaseTag::Established,
        TransitionTrigger::HandshakeCompleted,
        1,
    );
    assert!(result.is_err());
    assert_eq!(state.phase, SessionPhaseTag::Uninit);
}

#[test]
fn state_machine_degraded_flow() {
    let mut state = make_state();
    state
        .transition(
            SessionPhaseTag::Negotiating,
            TransitionTrigger::HandshakeInitiated,
            1,
        )
        .unwrap();
    state
        .transition(
            SessionPhaseTag::Established,
            TransitionTrigger::HandshakeCompleted,
            2,
        )
        .unwrap();
    state
        .enter_degraded(DegradedSeverity::StaleKey, "epoch_advanced".into(), 3)
        .unwrap();
    assert_eq!(state.phase, SessionPhaseTag::DegradedOpen);
    assert!(state.degraded_policy.is_some());

    // Recovery
    state
        .transition(
            SessionPhaseTag::Established,
            TransitionTrigger::DegradedRecovery,
            4,
        )
        .unwrap();
    assert_eq!(state.phase, SessionPhaseTag::Established);
    assert!(state.degraded_policy.is_none());
}

#[test]
fn state_machine_transition_history() {
    let mut state = make_state();
    state
        .transition(
            SessionPhaseTag::Negotiating,
            TransitionTrigger::HandshakeInitiated,
            1,
        )
        .unwrap();
    state
        .transition(
            SessionPhaseTag::Established,
            TransitionTrigger::HandshakeCompleted,
            2,
        )
        .unwrap();
    assert_eq!(state.transition_history.len(), 2);
    assert_eq!(state.transition_history[0].from, SessionPhaseTag::Uninit);
    assert_eq!(state.transition_history[1].to, SessionPhaseTag::Established);
}

#[test]
fn state_machine_attach_key_schedule() {
    let mut state = make_state();
    let ks = make_key_schedule();
    state.attach_key_schedule(ks).unwrap();
    assert!(state.key_schedule.is_some());
}

#[test]
fn state_machine_reject_incomplete_key_schedule() {
    let mut state = make_state();
    let ks = SessionKeySchedule::new(
        test_epoch(),
        "s".into(),
        "e".into(),
        "h".into(),
        test_hash(),
    );
    let result = state.attach_key_schedule(ks);
    assert!(result.is_err());
}

#[test]
fn state_machine_epoch_validation() {
    let mut state = make_state();
    let ks = make_key_schedule();
    state.attach_key_schedule(ks).unwrap();

    assert!(state.validate_epoch(test_epoch()).is_ok());
    assert!(state.validate_epoch(SecurityEpoch::from_raw(99)).is_err());
}

#[test]
fn state_machine_check_operation_established() {
    let mut state = make_state();
    state
        .transition(
            SessionPhaseTag::Negotiating,
            TransitionTrigger::HandshakeInitiated,
            1,
        )
        .unwrap();
    state
        .transition(
            SessionPhaseTag::Established,
            TransitionTrigger::HandshakeCompleted,
            2,
        )
        .unwrap();
    assert!(
        state
            .check_operation(DegradedOperationKind::WriteHostcall, 3)
            .is_ok()
    );
}

#[test]
fn state_machine_check_operation_degraded_blocked() {
    let mut state = make_state();
    state
        .transition(
            SessionPhaseTag::Negotiating,
            TransitionTrigger::HandshakeInitiated,
            1,
        )
        .unwrap();
    state
        .transition(
            SessionPhaseTag::Established,
            TransitionTrigger::HandshakeCompleted,
            2,
        )
        .unwrap();
    state
        .enter_degraded(
            DegradedSeverity::IdentityCompromised,
            "compromised".into(),
            3,
        )
        .unwrap();
    let result = state.check_operation(DegradedOperationKind::ReadHostcall, 4);
    assert!(result.is_err());
}

#[test]
fn state_machine_check_operation_degraded_allowed() {
    let mut state = make_state();
    state
        .transition(
            SessionPhaseTag::Negotiating,
            TransitionTrigger::HandshakeInitiated,
            1,
        )
        .unwrap();
    state
        .transition(
            SessionPhaseTag::Established,
            TransitionTrigger::HandshakeCompleted,
            2,
        )
        .unwrap();
    state
        .enter_degraded(DegradedSeverity::StaleKey, "stale".into(), 3)
        .unwrap();
    assert!(
        state
            .check_operation(DegradedOperationKind::ReadHostcall, 4)
            .is_ok()
    );
    assert!(
        state
            .check_operation(DegradedOperationKind::WriteHostcall, 4)
            .is_ok()
    );
}

#[test]
fn state_machine_replay_check_integration() {
    let mut state = make_state();
    assert!(state.check_replay(1, 1, None).is_ok());
    assert!(state.check_replay(2, 2, None).is_ok());
    assert!(state.check_replay(1, 3, None).is_err());
}

#[test]
fn state_machine_degraded_budget_exhaustion() {
    let mut state = make_state();
    state
        .transition(
            SessionPhaseTag::Negotiating,
            TransitionTrigger::HandshakeInitiated,
            1,
        )
        .unwrap();
    state
        .transition(
            SessionPhaseTag::Established,
            TransitionTrigger::HandshakeCompleted,
            2,
        )
        .unwrap();
    state
        .enter_degraded(DegradedSeverity::PartialMacFailure, "mac_fail".into(), 3)
        .unwrap();

    // Exhaust the budget.
    let policy = state.degraded_policy.as_ref().unwrap();
    let limit = policy.max_degraded_messages;
    for _ in 0..limit {
        state.record_degraded_message();
    }

    let result = state.check_operation(DegradedOperationKind::ReadHostcall, 4);
    assert!(result.is_err());
}

#[test]
fn state_machine_close_from_established() {
    let mut state = make_state();
    state
        .transition(
            SessionPhaseTag::Negotiating,
            TransitionTrigger::HandshakeInitiated,
            1,
        )
        .unwrap();
    state
        .transition(
            SessionPhaseTag::Established,
            TransitionTrigger::HandshakeCompleted,
            2,
        )
        .unwrap();
    state
        .transition(
            SessionPhaseTag::Closing,
            TransitionTrigger::CloseInitiated,
            3,
        )
        .unwrap();
    state
        .transition(
            SessionPhaseTag::Closed,
            TransitionTrigger::DrainCompleted,
            4,
        )
        .unwrap();
    assert!(state.phase.is_terminal());
}

#[test]
fn state_machine_no_transition_from_closed() {
    let mut state = make_state();
    state
        .transition(
            SessionPhaseTag::Negotiating,
            TransitionTrigger::HandshakeInitiated,
            1,
        )
        .unwrap();
    state
        .transition(
            SessionPhaseTag::Closed,
            TransitionTrigger::HandshakeRejected,
            2,
        )
        .unwrap();
    let result = state.transition(
        SessionPhaseTag::Negotiating,
        TransitionTrigger::HandshakeInitiated,
        3,
    );
    assert!(result.is_err());
}

#[test]
fn state_machine_degraded_time_budget_exhaustion() {
    let mut state = make_state();
    state
        .transition(
            SessionPhaseTag::Negotiating,
            TransitionTrigger::HandshakeInitiated,
            1,
        )
        .unwrap();
    state
        .transition(
            SessionPhaseTag::Established,
            TransitionTrigger::HandshakeCompleted,
            2,
        )
        .unwrap();
    state
        .enter_degraded(DegradedSeverity::StaleKey, "stale".into(), 100)
        .unwrap();

    let policy = state.degraded_policy.as_ref().unwrap();
    let max_ticks = policy.max_degraded_ticks;

    // Within budget.
    assert!(
        state
            .check_operation(DegradedOperationKind::ReadHostcall, 100 + max_ticks)
            .is_ok()
    );

    // Exceeds budget.
    assert!(
        state
            .check_operation(DegradedOperationKind::ReadHostcall, 100 + max_ticks + 1)
            .is_err()
    );
}


#[test]
fn corpus_run_is_clean_and_complete() {
    let r = run_hsp_corpus();
    assert_eq!(r.specimen_count, 12);
    assert_eq!(r.specimen_count, hsp_corpus().len());
    assert!(r.all_clean);
    assert_eq!(r.terminal_count, 6);
    assert_eq!(r.families_covered.len(), 8);
    assert_eq!(run_hsp_corpus().content_hash, r.content_hash);
}

#[test]
fn corpus_final_ledgers() {
    let c = hsp_corpus();
    assert_eq!(c[5].final_state.replay_ledger.window_floor(), 16);
    assert_eq!(c[5].final_state.replay_ledger.window_ceiling(), 20);
    assert_eq!(c[5].final_state.replay_ledger.total_below_floor(), 1);
    assert_eq!(c[4].final_state.replay_ledger.window_ceiling(), 10);
    assert_eq!(c[4].final_state.replay_ledger.total_replays(), 1);
    assert_eq!(c[8].final_state.replay_ledger.total_accepted(), 2);
    assert_eq!(c[0].final_state.replay_ledger.total_checked(), 0);
}

#[test]
fn ledger_window_after_ten_accepts() {
    let mut l = AntiReplayLedger::new("sess".into(), 4, 100);
    for seq in 1..=10u64 {
        assert_eq!(l.check_and_record(seq, seq, None), ReplayVerdict::Accept);
    }
    assert_eq!(l.window_floor(), 6);
    assert_eq!(l.window_ceiling(), 10);
    assert_eq!(l.window_size(), 5);
    assert_eq!(l.check_and_record(1, 11, None), ReplayVerdict::BelowFloor);
    assert_eq!(l.total_below_floor(), 1);
    assert_eq!(l.audit_trail().len(), 11);
}
