//! Verified gates, ledgers and reducers of the franken-engine runtime.

pub mod collections;
pub mod foundation;
pub mod strmap;
pub mod text;
pub mod hardware_board_claim_gate;
pub mod hardware_localization_residual;
pub mod hardware_parameter_manifold;
pub mod hindsight_trace_escalator;
pub mod hindsight_escalation_bundle;
pub mod hostcall_session_protocol;
pub mod hostcall_session_governance_gate;
pub mod hostcall_conformance_governance;
pub mod hierarchical_delta_debug;
pub mod hole_witness_generator;
