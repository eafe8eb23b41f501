//! Session protocol for hostcall sessions: the phase state machine, the key
//! schedule, the anti-replay ledger and degraded-mode semantics.
//!
//! A session moves through `Uninit -> Negotiating -> Established ->
//! (DegradedOpen) -> Closing -> Closed` along a fixed transition table;
//! `Closed` is terminal.  Key-schedule stages are bound to the session and
//! epoch, the ledger rejects replayed and out-of-window sequence numbers,
//! and the degraded-mode policy decides which operations remain permitted
//! while full authentication cannot be maintained.

use crate::collections::{strictly_ranked, EnumSet, Ranked};
use crate::foundation::{
    decimal, owned, push_bytes, push_str, push_u64_le, sha256_digest, u64_le, u64_to_decimal,
    utf8, AuthenticityHash, ContentHash, SecurityEpoch,
};
use vstd::prelude::*;

verus! {

// ---------------------------------------------------------------------------
// SessionPhaseTag
// ---------------------------------------------------------------------------

/// Session lifecycle phase.
#[derive(Debug, Clone, Copy, PartialEq, Eq, PartialOrd, Ord, Hash, Structural)]
pub enum SessionPhaseTag {
    /// No handshake initiated yet.
    Uninit,
    /// Handshake sent; awaiting the peer's response.
    Negotiating,
    /// Mutually authenticated; data may flow.
    Established,
    /// Open with reduced security guarantees.
    DegradedOpen,
    /// Close initiated; draining in-flight messages.
    Closing,
    /// Terminal.
    Closed,
}

impl SessionPhaseTag {
    /// All variants, for exhaustive iteration.
    pub const ALL: [SessionPhaseTag; 6] = [
        SessionPhaseTag::Uninit,
        SessionPhaseTag::Negotiating,
        SessionPhaseTag::Established,
        SessionPhaseTag::DegradedOpen,
        SessionPhaseTag::Closing,
        SessionPhaseTag::Closed,
    ];

    /// Whether no transition can leave this phase.
    pub fn is_terminal(self) -> (r: bool)
        ensures
            r == (self == SessionPhaseTag::Closed),
    {
        self == SessionPhaseTag::Closed
    }

    /// Whether data-plane envelopes may be sent in this phase.
    pub open spec fn permits_data_spec(self) -> bool {
        self == SessionPhaseTag::Established || self == SessionPhaseTag::DegradedOpen
    }

    /// Whether data-plane envelopes may be sent in this phase.
    pub fn permits_data(self) -> (r: bool)
        ensures
            r == self.permits_data_spec(),
    {
        match self {
            SessionPhaseTag::Established | SessionPhaseTag::DegradedOpen => true,
            _ => false,
        }
    }

    /// Stable name of the phase.
    pub open spec fn name(self) -> Seq<char> {
        match self {
            SessionPhaseTag::Uninit => "uninit"@,
            SessionPhaseTag::Negotiating => "negotiating"@,
            SessionPhaseTag::Established => "established"@,
            SessionPhaseTag::DegradedOpen => "degraded_open"@,
            SessionPhaseTag::Closing => "closing"@,
            SessionPhaseTag::Closed => "closed"@,
        }
    }

    /// Stable name of the phase.
    pub fn as_str(self) -> (r: &'static str)
        ensures
            r@ == self.name(),
    {
        match self {
            SessionPhaseTag::Uninit => "uninit",
            SessionPhaseTag::Negotiating => "negotiating",
            SessionPhaseTag::Established => "established",
            SessionPhaseTag::DegradedOpen => "degraded_open",
            SessionPhaseTag::Closing => "closing",
            SessionPhaseTag::Closed => "closed",
        }
    }

    /// Display rendering (the stable name).
    pub fn to_string(&self) -> (r: String)
        ensures
            r@ == self.name(),
    {
        owned(self.as_str())
    }
}

// ---------------------------------------------------------------------------
// Transitions
// ---------------------------------------------------------------------------

/// Events that cause phase transitions.
#[derive(Debug, Clone, PartialEq, Eq)]
pub enum TransitionTrigger {
    HandshakeInitiated,
    HandshakeCompleted,
    HandshakeRejected,
    SecurityDegradation { reason: String },
    DegradedRecovery,
    CloseInitiated,
    SessionExpired { reason: String },
    DrainCompleted,
    ReplayThresholdBreached { drop_count: u64, window_ticks: u64 },
}

impl TransitionTrigger {
    /// Display rendering of the trigger.
    pub open spec fn text(self) -> Seq<char> {
        match self {
            TransitionTrigger::HandshakeInitiated => "handshake_initiated"@,
            TransitionTrigger::HandshakeCompleted => "handshake_completed"@,
            TransitionTrigger::HandshakeRejected => "handshake_rejected"@,
            TransitionTrigger::SecurityDegradation { reason } => "security_degradation: "@
                + reason@,
            TransitionTrigger::DegradedRecovery => "degraded_recovery"@,
            TransitionTrigger::CloseInitiated => "close_initiated"@,
            TransitionTrigger::SessionExpired { reason } => "session_expired: "@ + reason@,
            TransitionTrigger::DrainCompleted => "drain_completed"@,
            TransitionTrigger::ReplayThresholdBreached { drop_count, window_ticks } =>
                "replay_threshold_breached: drops="@ + decimal(drop_count as nat) + ", window="@
                + decimal(window_ticks as nat),
        }
    }

    /// Display rendering of the trigger.
    pub fn to_string(&self) -> (r: String)
        ensures
            r@ == self.text(),
    {
        match self {
            TransitionTrigger::HandshakeInitiated => owned("handshake_initiated"),
            TransitionTrigger::HandshakeCompleted => owned("handshake_completed"),
            TransitionTrigger::HandshakeRejected => owned("handshake_rejected"),
            TransitionTrigger::SecurityDegradation { reason } => {
                let mut s = owned("security_degradation: ");
                s.append(reason.as_str());
                s
            },
            TransitionTrigger::DegradedRecovery => owned("degraded_recovery"),
            TransitionTrigger::CloseInitiated => owned("close_initiated"),
            TransitionTrigger::SessionExpired { reason } => {
                let mut s = owned("session_expired: ");
                s.append(reason.as_str());
                s
            },
            TransitionTrigger::DrainCompleted => owned("drain_completed"),
            TransitionTrigger::ReplayThresholdBreached { drop_count, window_ticks } => {
                let mut s = owned("replay_threshold_breached: drops=");
                s.append(u64_to_decimal(*drop_count).as_str());
                s.append(", window=");
                s.append(u64_to_decimal(*window_ticks).as_str());
                s
            },
        }
    }
}

/// A valid transition in the session state machine.
#[derive(Debug, Clone, PartialEq, Eq)]
pub struct PhaseTransition {
    pub from: SessionPhaseTag,
    pub to: SessionPhaseTag,
    pub trigger: TransitionTrigger,
}

/// Source and target phases of row `i` of the transition table.
pub open spec fn table_edge(i: int) -> (SessionPhaseTag, SessionPhaseTag) {
    if i == 0 {
        (SessionPhaseTag::Uninit, SessionPhaseTag::Negotiating)
    } else if i == 1 {
        (SessionPhaseTag::Negotiating, SessionPhaseTag::Established)
    } else if i == 2 {
        (SessionPhaseTag::Negotiating, SessionPhaseTag::Closed)
    } else if i == 3 {
        (SessionPhaseTag::Established, SessionPhaseTag::DegradedOpen)
    } else if i == 4 {
        (SessionPhaseTag::Established, SessionPhaseTag::Closing)
    } else if i == 5 {
        (SessionPhaseTag::Established, SessionPhaseTag::Closed)
    } else if i == 6 {
        (SessionPhaseTag::Established, SessionPhaseTag::Closed)
    } else if i == 7 {
        (SessionPhaseTag::DegradedOpen, SessionPhaseTag::Established)
    } else if i == 8 {
        (SessionPhaseTag::DegradedOpen, SessionPhaseTag::Closing)
    } else if i == 9 {
        (SessionPhaseTag::DegradedOpen, SessionPhaseTag::Closed)
    } else if i == 10 {
        (SessionPhaseTag::Closing, SessionPhaseTag::Closed)
    } else {
        (SessionPhaseTag::Closing, SessionPhaseTag::Closed)
    }
}

/// Trigger of row `i` of the transition table (payload strings empty,
/// counters zero).
pub open spec fn table_trigger_matches(t: TransitionTrigger, i: int) -> bool {
    if i == 0 {
        t == TransitionTrigger::HandshakeInitiated
    } else if i == 1 {
        t == TransitionTrigger::HandshakeCompleted
    } else if i == 2 {
        t == TransitionTrigger::HandshakeRejected
    } else if i == 3 {
        t matches TransitionTrigger::SecurityDegradation { reason } && reason@.len() == 0
    } else if i == 4 {
        t == TransitionTrigger::CloseInitiated
    } else if i == 5 {
        t matches TransitionTrigger::SessionExpired { reason } && reason@.len() == 0
    } else if i == 6 {
        t == (TransitionTrigger::ReplayThresholdBreached { drop_count: 0, window_ticks: 0 })
    } else if i == 7 {
        t == TransitionTrigger::DegradedRecovery
    } else if i == 8 {
        t == TransitionTrigger::CloseInitiated
    } else if i == 9 {
        t matches TransitionTrigger::SessionExpired { reason } && reason@.len() == 0
    } else if i == 10 {
        t == TransitionTrigger::DrainCompleted
    } else {
        t matches TransitionTrigger::SessionExpired { reason } && reason@.len() == 0
    }
}

/// Whether the transition table has a row from `from` to `to`.
pub open spec fn table_has(from: SessionPhaseTag, to: SessionPhaseTag) -> bool {
    exists|i: int| 0 <= i < 12 && #[trigger] table_edge(i) == (from, to)
}

/// Whether the protocol permits moving from `from` to `to`.
pub open spec fn valid_edge(from: SessionPhaseTag, to: SessionPhaseTag) -> bool {
    from != SessionPhaseTag::Closed && from != to && table_has(from, to)
}

fn edge(from: SessionPhaseTag, to: SessionPhaseTag, trigger: TransitionTrigger) -> (r: PhaseTransition)
    ensures
        r.from == from,
        r.to == to,
        r.trigger == trigger,
{
    PhaseTransition { from, to, trigger }
}

/// The complete transition table.  Every valid `(from, to)` pair is listed;
/// any other pair is a protocol violation.
pub fn valid_transitions() -> (r: Vec<PhaseTransition>)
    ensures
        r@.len() == 12,
        forall|i: int|
            0 <= i < 12 ==> (#[trigger] r@[i]).from == table_edge(i).0 && r@[i].to == table_edge(i).1
                && table_trigger_matches(r@[i].trigger, i),
{
    let r = vec![
        edge(SessionPhaseTag::Uninit, SessionPhaseTag::Negotiating, TransitionTrigger::HandshakeInitiated),
        edge(SessionPhaseTag::Negotiating, SessionPhaseTag::Established, TransitionTrigger::HandshakeCompleted),
        edge(SessionPhaseTag::Negotiating, SessionPhaseTag::Closed, TransitionTrigger::HandshakeRejected),
        edge(
            SessionPhaseTag::Established,
            SessionPhaseTag::DegradedOpen,
            TransitionTrigger::SecurityDegradation { reason: String::new() },
        ),
        edge(SessionPhaseTag::Established, SessionPhaseTag::Closing, TransitionTrigger::CloseInitiated),
        edge(
            SessionPhaseTag::Established,
            SessionPhaseTag::Closed,
            TransitionTrigger::SessionExpired { reason: String::new() },
        ),
        edge(
            SessionPhaseTag::Established,
            SessionPhaseTag::Closed,
            TransitionTrigger::ReplayThresholdBreached { drop_count: 0, window_ticks: 0 },
        ),
        edge(SessionPhaseTag::DegradedOpen, SessionPhaseTag::Established, TransitionTrigger::DegradedRecovery),
        edge(SessionPhaseTag::DegradedOpen, SessionPhaseTag::Closing, TransitionTrigger::CloseInitiated),
        edge(
            SessionPhaseTag::DegradedOpen,
            SessionPhaseTag::Closed,
            TransitionTrigger::SessionExpired { reason: String::new() },
        ),
        edge(SessionPhaseTag::Closing, SessionPhaseTag::Closed, TransitionTrigger::DrainCompleted),
        edge(
            SessionPhaseTag::Closing,
            SessionPhaseTag::Closed,
            TransitionTrigger::SessionExpired { reason: String::new() },
        ),
    ];
    assert forall|i: int| 0 <= i < 12 implies (#[trigger] r@[i]).from == table_edge(i).0 && r@[i].to
        == table_edge(i).1 && table_trigger_matches(r@[i].trigger, i) by {
        if i == 0 {
        } else if i == 1 {
        } else if i == 2 {
        } else if i == 3 {
        } else if i == 4 {
        } else if i == 5 {
        } else if i == 6 {
        } else if i == 7 {
        } else if i == 8 {
        } else if i == 9 {
        } else if i == 10 {
        } else {
        }
    }
    r
}

/// Check whether a phase transition is valid per the protocol: `Closed` is
/// terminal, self-loops are never valid, and otherwise the pair must appear
/// in the transition table.
pub fn is_valid_transition(from: SessionPhaseTag, to: SessionPhaseTag) -> (r: bool)
    ensures
        r == valid_edge(from, to),
{
    if from == SessionPhaseTag::Closed {
        return false;
    }
    if from == to {
        return false;
    }
    let table = valid_transitions();
    let mut i: usize = 0;
    while i < table.len()
        invariant
            i <= table@.len(),
            table@.len() == 12,
            forall|k: int|
                0 <= k < 12 ==> (#[trigger] table@[k]).from == table_edge(k).0 && table@[k].to
                    == table_edge(k).1,
            forall|k: int| 0 <= k < i ==> table_edge(k) != (from, to),
        decreases table@.len() - i,
    {
        if table[i].from == from && table[i].to == to {
            assert(table_edge(i as int) == (from, to));
            return true;
        }
        i = i + 1;
    }
    false
}

// ---------------------------------------------------------------------------
// Key schedule
// ---------------------------------------------------------------------------

/// Purpose of a key-schedule stage.
#[derive(Debug, Clone, Copy, PartialEq, Eq, PartialOrd, Ord, Hash, Structural)]
pub enum KeyStagePurpose {
    /// Stage 0: master secret from the handshake transcript.
    MasterSecret,
    /// Stage 1: per-message MAC key.
    DataPlaneMac,
    /// Stage 2: AEAD encryption key.
    DataPlaneEncrypt,
    /// Stage 3: backpressure signing key.
    BackpressureSign,
}

impl KeyStagePurpose {
    /// All purposes in stage order.
    pub const ALL: [KeyStagePurpose; 4] = [
        KeyStagePurpose::MasterSecret,
        KeyStagePurpose::DataPlaneMac,
        KeyStagePurpose::DataPlaneEncrypt,
        KeyStagePurpose::BackpressureSign,
    ];

    /// Stage number of the purpose.
    pub open spec fn stage_number(self) -> u32 {
        match self {
            KeyStagePurpose::MasterSecret => 0,
            KeyStagePurpose::DataPlaneMac => 1,
            KeyStagePurpose::DataPlaneEncrypt => 2,
            KeyStagePurpose::BackpressureSign => 3,
        }
    }

    fn stage_exec(self) -> (r: u32)
        ensures
            r == self.stage_number(),
    {
        match self {
            KeyStagePurpose::MasterSecret => 0,
            KeyStagePurpose::DataPlaneMac => 1,
            KeyStagePurpose::DataPlaneEncrypt => 2,
            KeyStagePurpose::BackpressureSign => 3,
        }
    }

    /// Domain separation label of the purpose.
    pub open spec fn label(self) -> Seq<char> {
        match self {
            KeyStagePurpose::MasterSecret => "franken::hsp::master"@,
            KeyStagePurpose::DataPlaneMac => "franken::hsp::mac"@,
            KeyStagePurpose::DataPlaneEncrypt => "franken::hsp::encrypt"@,
            KeyStagePurpose::BackpressureSign => "franken::hsp::bp-sign"@,
        }
    }

    /// Domain separation label used in derivation.
    pub fn domain_label(self) -> (r: &'static str)
        ensures
            r@ == self.label(),
    {
        match self {
            KeyStagePurpose::MasterSecret => "franken::hsp::master",
            KeyStagePurpose::DataPlaneMac => "franken::hsp::mac",
            KeyStagePurpose::DataPlaneEncrypt => "franken::hsp::encrypt",
            KeyStagePurpose::BackpressureSign => "franken::hsp::bp-sign",
        }
    }

    /// Stable name of the purpose.
    pub open spec fn name(self) -> Seq<char> {
        match self {
            KeyStagePurpose::MasterSecret => "master_secret"@,
            KeyStagePurpose::DataPlaneMac => "data_plane_mac"@,
            KeyStagePurpose::DataPlaneEncrypt => "data_plane_encrypt"@,
            KeyStagePurpose::BackpressureSign => "backpressure_sign"@,
        }
    }

    /// Display rendering (the stable name).
    pub fn to_string(&self) -> (r: String)
        ensures
            r@ == self.name(),
    {
        match self {
            KeyStagePurpose::MasterSecret => owned("master_secret"),
            KeyStagePurpose::DataPlaneMac => owned("data_plane_mac"),
            KeyStagePurpose::DataPlaneEncrypt => owned("data_plane_encrypt"),
            KeyStagePurpose::BackpressureSign => owned("backpressure_sign"),
        }
    }
}

/// A single stage in the key schedule.
#[derive(Debug, Clone, PartialEq, Eq)]
pub struct KeyScheduleStage {
    /// Stage number (0 = master, 1 = MAC, 2 = encrypt, 3 = bp-sign).
    pub stage: u32,
    pub purpose: KeyStagePurpose,
    /// Domain separation label used in derivation.
    pub domain_label: String,
    /// Hash of the derived key material (never the key itself).
    pub key_fingerprint: ContentHash,
    /// Epoch in which the stage was derived.
    pub epoch: SecurityEpoch,
}

/// How session keys derive from handshake material; each stage is bound to
/// the session identity, the epoch and the stage purpose.
#[derive(Debug, Clone, PartialEq, Eq)]
pub struct SessionKeySchedule {
    pub epoch: SecurityEpoch,
    pub session_id: String,
    pub extension_id: String,
    pub host_id: String,
    /// Stages derived so far.
    pub derived_stages: Vec<KeyScheduleStage>,
    /// Content hash of the handshake transcript that seeded stage 0.
    pub handshake_transcript_hash: ContentHash,
}

impl SessionKeySchedule {
    /// A schedule with no stages derived yet.
    pub fn new(
        epoch: SecurityEpoch,
        session_id: String,
        extension_id: String,
        host_id: String,
        handshake_transcript_hash: ContentHash,
    ) -> (r: Self)
        ensures
            r.epoch == epoch,
            r.session_id == session_id,
            r.extension_id == extension_id,
            r.host_id == host_id,
            r.derived_stages@.len() == 0,
            r.handshake_transcript_hash == handshake_transcript_hash,
    {
        SessionKeySchedule {
            epoch,
            session_id,
            extension_id,
            host_id,
            derived_stages: Vec::new(),
            handshake_transcript_hash,
        }
    }

    /// Record that a key stage has been derived.
    pub fn record_stage(&mut self, purpose: KeyStagePurpose, key_fingerprint: ContentHash)
        ensures
            final(self).epoch == old(self).epoch,
            final(self).session_id == old(self).session_id,
            final(self).extension_id == old(self).extension_id,
            final(self).host_id == old(self).host_id,
            final(self).handshake_transcript_hash == old(self).handshake_transcript_hash,
            final(self).derived_stages@.len() == old(self).derived_stages@.len() + 1,
            final(self).derived_stages@.drop_last() == old(self).derived_stages@,
            final(self).derived_stages@.last().stage == purpose.stage_number(),
            final(self).derived_stages@.last().purpose == purpose,
            final(self).derived_stages@.last().domain_label@ == purpose.label(),
            final(self).derived_stages@.last().key_fingerprint == key_fingerprint,
            final(self).derived_stages@.last().epoch == old(self).epoch,
    {
        let stage = KeyScheduleStage {
            stage: purpose.stage_exec(),
            purpose,
            domain_label: owned(purpose.domain_label()),
            key_fingerprint,
            epoch: self.epoch,
        };
        let ghost before = self.derived_stages@;
        self.derived_stages.push(stage);
        assert(self.derived_stages@.drop_last() =~= before);
    }

    /// Whether all four stages have been derived.
    pub fn is_complete(&self) -> (r: bool)
        ensures
            r == (self.derived_stages@.len() == 4),
    {
        self.derived_stages.len() == KeyStagePurpose::ALL.len()
    }

    /// Whether the schedule was derived in the given epoch.
    pub fn is_valid_for_epoch(&self, current_epoch: SecurityEpoch) -> (r: bool)
        ensures
            r == (self.epoch == current_epoch),
    {
        self.epoch.as_u64() == current_epoch.as_u64()
    }

    /// Bytes hashed into the binding hash.
    pub open spec fn binding_input(self) -> Seq<u8> {
        utf8("franken::key_schedule::"@) + u64_le(self.epoch.0) + utf8(self.session_id@) + seq![
            0u8,
        ] + utf8(self.extension_id@) + seq![0u8] + utf8(self.host_id@) + seq![0u8]
            + self.handshake_transcript_hash@
    }

    /// A hash covering every derivation input.
    pub fn binding_hash(&self) -> (r: ContentHash)
        ensures
            r@ == sha256_digest(self.binding_input()),
    {
        let mut pre: Vec<u8> = Vec::new();
        push_str(&mut pre, "franken::key_schedule::");
        push_u64_le(&mut pre, self.epoch.as_u64());
        push_str(&mut pre, self.session_id.as_str());
        pre.push(0u8);
        push_str(&mut pre, self.extension_id.as_str());
        pre.push(0u8);
        push_str(&mut pre, self.host_id.as_str());
        pre.push(0u8);
        push_bytes(&mut pre, self.handshake_transcript_hash.as_bytes());
        assert(pre@ =~= self.binding_input());
        ContentHash::compute(pre.as_slice())
    }
}

// ---------------------------------------------------------------------------
// Anti-replay ledger
// ---------------------------------------------------------------------------

/// Anti-replay verdict for an incoming message.
#[derive(Debug, Clone, Copy, PartialEq, Eq, Hash, Structural)]
pub enum ReplayVerdict {
    /// First time this sequence has been seen.
    Accept,
    /// This exact sequence was already processed.
    Replay,
    /// The sequence is below the window floor.
    BelowFloor,
    /// The sequence is too far above the window ceiling.
    AboveCeiling,
}

impl ReplayVerdict {
    /// Stable name of the verdict.
    pub open spec fn name(self) -> Seq<char> {
        match self {
            ReplayVerdict::Accept => "accept"@,
            ReplayVerdict::Replay => "replay"@,
            ReplayVerdict::BelowFloor => "below_floor"@,
            ReplayVerdict::AboveCeiling => "above_ceiling"@,
        }
    }

    /// Stable name of the verdict.
    pub fn as_str(self) -> (r: &'static str)
        ensures
            r@ == self.name(),
    {
        match self {
            ReplayVerdict::Accept => "accept",
            ReplayVerdict::Replay => "replay",
            ReplayVerdict::BelowFloor => "below_floor",
            ReplayVerdict::AboveCeiling => "above_ceiling",
        }
    }

    /// Display rendering (the stable name).
    pub fn to_string(&self) -> (r: String)
        ensures
            r@ == self.name(),
    {
        owned(self.as_str())
    }
}

/// A processed message recorded for audit.
#[derive(Debug, Clone, PartialEq, Eq)]
pub struct ReplayLedgerEntry {
    pub session_id: String,
    pub sequence: u64,
    /// Content hash of the envelope.
    pub envelope_hash: ContentHash,
    /// Tick at which the message was accepted.
    pub accepted_at_tick: u64,
    /// MAC of the envelope, for retroactive verification.
    pub mac: AuthenticityHash,
}

/// An audit entry recording one replay-check decision.
#[derive(Debug, Clone, Copy, PartialEq, Eq)]
pub struct ReplayAuditEntry {
    pub sequence: u64,
    pub verdict: ReplayVerdict,
    pub checked_at_tick: u64,
    pub envelope_hash: Option<ContentHash>,
}

/// Strictly increasing sequence of sequence numbers.
pub open spec fn strictly_increasing(s: Seq<u64>) -> bool {
    forall|i: int, j: int| 0 <= i < j < s.len() ==> s[i] < s[j]
}

/// A strictly increasing sequence inside `[lo, hi]` has at most
/// `hi - lo + 1` elements.
proof fn lemma_increasing_len(s: Seq<u64>, lo: int, hi: int)
    requires
        strictly_increasing(s),
        forall|i: int| 0 <= i < s.len() ==> lo <= #[trigger] s[i] <= hi,
    ensures
        s.len() <= if hi - lo + 1 > 0 {
            hi - lo + 1
        } else {
            0
        },
    decreases s.len(),
{
    if s.len() > 0 {
        let t = s.drop_last();
        assert forall|i: int| 0 <= i < t.len() implies lo <= #[trigger] t[i] <= s.last() - 1 by {
            assert(t[i] == s[i]);
            assert(s[i] < s[s.len() - 1]);
        }
        lemma_increasing_len(t, lo, s.last() - 1);
    }
}

/// How many of the `n` values from `lo` on a sequence contains.
pub open spec fn count_in(s: Seq<u64>, lo: int, n: nat) -> nat
    decreases n,
{
    if n == 0 {
        0
    } else {
        count_in(s, lo, (n - 1) as nat) + if s.contains((lo + n - 1) as u64) {
            1nat
        } else {
            0nat
        }
    }
}

/// A strictly increasing sequence inside `[lo, lo + n)` has exactly as
/// many elements as values of that range it contains.
proof fn lemma_count_in_len(s: Seq<u64>, lo: int, n: nat)
    requires
        strictly_increasing(s),
        0 <= lo,
        lo + n <= u64::MAX + 1,
        forall|i: int| 0 <= i < s.len() ==> lo <= #[trigger] s[i] < lo + n,
    ensures
        count_in(s, lo, n) == s.len(),
    decreases n,
{
    if n == 0 {
        if s.len() > 0 {
            assert(lo <= s[0] < lo + n);
        }
    } else {
        let top = (lo + n - 1) as u64;
        if s.len() > 0 && s.last() == top {
            let t = s.drop_last();
            assert forall|i: int| 0 <= i < t.len() implies lo <= #[trigger] t[i] < lo + n - 1 by {
                assert(t[i] == s[i]);
                assert(s[i] < s[s.len() - 1]);
            }
            lemma_count_in_len(t, lo, (n - 1) as nat);
            lemma_count_in_same(s, t, lo, (n - 1) as nat);
            assert(s.contains(top)) by {
                assert(s[s.len() - 1] == top);
            }
        } else {
            assert forall|i: int| 0 <= i < s.len() implies lo <= #[trigger] s[i] < lo + n - 1 by {
                if s[i] == top {
                    if i < s.len() - 1 {
                        assert(s[i] < s[s.len() - 1]);
                    }
                }
            }
            lemma_count_in_len(s, lo, (n - 1) as nat);
            assert(!s.contains(top)) by {
                if s.contains(top) {
                    let i = choose|i: int| 0 <= i < s.len() && s[i] == top;
                    assert(s[i] < lo + n - 1);
                }
            }
        }
    }
}

/// Two sequences that agree on which values of `[lo, lo + n)` they contain
/// count alike there.
proof fn lemma_count_in_same(s: Seq<u64>, t: Seq<u64>, lo: int, n: nat)
    requires
        t == s.drop_last(),
        s.len() > 0,
        s.last() as int >= lo + n,
        0 <= lo,
    ensures
        count_in(s, lo, n) == count_in(t, lo, n),
    decreases n,
{
    if n > 0 {
        lemma_count_in_same(s, t, lo, (n - 1) as nat);
        let x = (lo + n - 1) as u64;
        assert(s.contains(x) == t.contains(x)) by {
            if s.contains(x) {
                let i = choose|i: int| 0 <= i < s.len() && s[i] == x;
                assert(i != s.len() - 1);
                assert(t[i] == s[i]);
            }
            if t.contains(x) {
                let i = choose|i: int| 0 <= i < t.len() && t[i] == x;
                assert(s[i] == t[i]);
            }
        }
    }
}

/// Counting values of a range never exceeds the range's length.
proof fn lemma_count_in_le(s: Seq<u64>, lo: int, n: nat)
    ensures
        count_in(s, lo, n) <= n,
    decreases n,
{
    if n > 0 {
        lemma_count_in_le(s, lo, (n - 1) as nat);
    }
}

/// How many of the `n` sequences from `lo` on a ledger holds.
pub open spec fn held_in(l: AntiReplayLedger, lo: int, n: nat) -> nat
    decreases n,
{
    if n == 0 {
        0
    } else {
        held_in(l, lo, (n - 1) as nat) + if l.holds((lo + n - 1) as u64) {
            1nat
        } else {
            0nat
        }
    }
}

/// Counting held sequences of a range never exceeds the range's length.
proof fn lemma_held_in_le(l: AntiReplayLedger, lo: int, n: nat)
    ensures
        held_in(l, lo, n) <= n,
    decreases n,
{
    if n > 0 {
        lemma_held_in_le(l, lo, (n - 1) as nat);
    }
}

/// How many sequences of its window `[floor, ceiling]` a ledger holds.
pub open spec fn window_held(l: AntiReplayLedger) -> nat {
    held_in(l, l.floor() as int, (l.ceiling() - l.floor() + 1) as nat)
}

fn seq_contains(v: &Vec<u64>, x: u64) -> (r: bool)
    ensures
        r == v@.contains(x),
{
    let mut i: usize = 0;
    while i < v.len()
        invariant
            i <= v@.len(),
            forall|k: int| 0 <= k < i ==> v@[k] != x,
        decreases v@.len() - i,
    {
        if v[i] == x {
            return true;
        }
        i = i + 1;
    }
    false
}

fn sorted_insert(v: &mut Vec<u64>, x: u64)
    requires
        strictly_increasing(old(v)@),
        !old(v)@.contains(x),
    ensures
        strictly_increasing(final(v)@),
        final(v)@.len() == old(v)@.len() + 1,
        forall|y: u64| #[trigger] final(v)@.contains(y) == (old(v)@.contains(y) || y == x),
{
    let ghost s = v@;
    let mut p: usize = 0;
    while p < v.len() && v[p] < x
        invariant
            p <= v@.len(),
            v@ == s,
            forall|k: int| 0 <= k < p ==> v@[k] < x,
        decreases v@.len() - p,
    {
        p = p + 1;
    }
    proof {
        if p < s.len() {
            assert(s[p as int] != x);
        }
    }
    v.insert(p, x);
    proof {
        let t = v@;
        assert(t =~= s.insert(p as int, x));
        assert forall|i: int, j: int| 0 <= i < j < t.len() implies t[i] < t[j] by {
            if j < p {
                assert(t[i] == s[i] && t[j] == s[j]);
            } else if j == p {
                assert(t[i] == s[i]);
            } else if i > p {
                assert(t[i] == s[i - 1] && t[j] == s[j - 1]);
            } else if i == p {
                assert(t[j] == s[j - 1]);
                assert(s[p as int] > x);
            } else {
                assert(t[i] == s[i] && t[j] == s[j - 1]);
            }
        }
        assert forall|y: u64| #[trigger] t.contains(y) == (s.contains(y) || y == x) by {
            if t.contains(y) {
                let k = choose|k: int| 0 <= k < t.len() && t[k] == y;
                if k < p {
                    assert(s[k] == y);
                } else if k > p {
                    assert(s[k - 1] == y);
                }
            }
            if s.contains(y) {
                let k = choose|k: int| 0 <= k < s.len() && s[k] == y;
                if k < p {
                    assert(t[k] == y);
                } else {
                    assert(t[k + 1] == y);
                }
            }
            if y == x {
                assert(t[p as int] == x);
            }
        }
    }
}

fn drop_below(v: &Vec<u64>, f: u64) -> (r: Vec<u64>)
    requires
        strictly_increasing(v@),
    ensures
        strictly_increasing(r@),
        r@.len() <= v@.len(),
        forall|y: u64| #[trigger] r@.contains(y) == (v@.contains(y) && y >= f),
{
    let mut p: usize = 0;
    while p < v.len() && v[p] < f
        invariant
            p <= v@.len(),
            forall|k: int| 0 <= k < p ==> v@[k] < f,
        decreases v@.len() - p,
    {
        p = p + 1;
    }
    let mut out: Vec<u64> = Vec::new();
    let mut i: usize = p;
    while i < v.len()
        invariant
            p <= i <= v@.len(),
            out@ == v@.subrange(p as int, i as int),
        decreases v@.len() - i,
    {
        out.push(v[i]);
        i = i + 1;
        assert(out@ =~= v@.subrange(p as int, i as int));
    }
    proof {
        let s = v@;
        let t = out@;
        assert(t =~= s.subrange(p as int, s.len() as int));
        assert forall|y: u64| #[trigger] t.contains(y) == (s.contains(y) && y >= f) by {
            if t.contains(y) {
                let k = choose|k: int| 0 <= k < t.len() && t[k] == y;
                assert(s[k + p] == y);
                if p < s.len() {
                    assert(s[p as int] >= f);
                    if k > 0 {
                        assert(s[p as int] < s[k + p]);
                    }
                }
            }
            if s.contains(y) && y >= f {
                let k = choose|k: int| 0 <= k < s.len() && s[k] == y;
                assert(k >= p);
                assert(t[k - p] == y);
            }
        }
    }
    out
}

/// Persistent anti-replay ledger with a sliding window over sequence
/// numbers: sequences below the floor are rejected, as are sequences too far
/// above the ceiling and sequences already accepted.  Every decision is
/// recorded in a bounded audit trail.
#[derive(Debug)]
pub struct AntiReplayLedger {
    session_id: String,
    /// Lowest sequence still inside the window.
    window_floor: u64,
    /// Highest sequence accepted so far.
    window_ceiling: u64,
    /// Maximum window width.
    window_width: u64,
    /// Accepted sequences inside the window, in increasing order.
    accepted_sequences: Vec<u64>,
    total_replay_count: u64,
    total_below_floor_count: u64,
    total_above_ceiling_count: u64,
    total_accepted: u64,
    /// Recent decisions, bounded by `max_audit_entries`.
    audit_trail: Vec<ReplayAuditEntry>,
    max_audit_entries: usize,
}

fn copy_seqs(v: &Vec<u64>) -> (r: Vec<u64>)
    ensures
        r@ == v@,
{
    let mut out: Vec<u64> = Vec::new();
    let mut i: usize = 0;
    while i < v.len()
        invariant
            i <= v@.len(),
            out@ == v@.take(i as int),
        decreases v@.len() - i,
    {
        out.push(v[i]);
        i = i + 1;
        assert(out@ =~= v@.take(i as int));
    }
    assert(v@.take(v@.len() as int) =~= v@);
    out
}

fn copy_audit(v: &Vec<ReplayAuditEntry>) -> (r: Vec<ReplayAuditEntry>)
    ensures
        r@ == v@,
{
    let mut out: Vec<ReplayAuditEntry> = Vec::new();
    let mut i: usize = 0;
    while i < v.len()
        invariant
            i <= v@.len(),
            out@ == v@.take(i as int),
        decreases v@.len() - i,
    {
        out.push(v[i]);
        i = i + 1;
        assert(out@ =~= v@.take(i as int));
    }
    assert(v@.take(v@.len() as int) =~= v@);
    out
}

impl Clone for AntiReplayLedger {
    fn clone(&self) -> (r: Self)
        ensures
            r.session() == self.session(),
            r.floor() == self.floor(),
            r.ceiling() == self.ceiling(),
            r.width() == self.width(),
            forall|x: u64| #[trigger] r.holds(x) == self.holds(x),
            r.size() == self.size(),
            r.counters() == self.counters(),
            r.audit() == self.audit(),
            r.audit_bound() == self.audit_bound(),
    {
        proof {
            use_type_invariant(self);
        }
        AntiReplayLedger {
            session_id: self.session_id.clone(),
            window_floor: self.window_floor,
            window_ceiling: self.window_ceiling,
            window_width: self.window_width,
            accepted_sequences: copy_seqs(&self.accepted_sequences),
            total_replay_count: self.total_replay_count,
            total_below_floor_count: self.total_below_floor_count,
            total_above_ceiling_count: self.total_above_ceiling_count,
            total_accepted: self.total_accepted,
            audit_trail: copy_audit(&self.audit_trail),
            max_audit_entries: self.max_audit_entries,
        }
    }
}

/// `a + b`, clamped at `u64::MAX`.
pub open spec fn sat_add(a: u64, b: u64) -> u64 {
    if a + b > u64::MAX {
        u64::MAX
    } else {
        (a + b) as u64
    }
}

impl AntiReplayLedger {
    #[verifier::type_invariant]
    closed spec fn wf(self) -> bool {
        &&& self.window_width >= 1
        &&& self.window_floor <= self.window_ceiling
        &&& (self.window_ceiling > self.window_width ==> self.window_floor >= self.window_ceiling
            - self.window_width)
        &&& strictly_increasing(self.accepted_sequences@)
        &&& forall|i: int|
            0 <= i < self.accepted_sequences@.len() ==> self.window_floor
                <= #[trigger] self.accepted_sequences@[i] <= self.window_ceiling
        &&& self.audit_trail@.len() <= self.max_audit_entries
    }

    /// Lowest sequence still inside the window.
    pub closed spec fn floor(self) -> u64 {
        self.window_floor
    }

    /// Highest sequence accepted so far.
    pub closed spec fn ceiling(self) -> u64 {
        self.window_ceiling
    }

    /// Window width.
    pub closed spec fn width(self) -> u64 {
        self.window_width
    }

    /// Whether `x` is an accepted sequence still inside the window.
    pub closed spec fn holds(self, x: u64) -> bool {
        self.accepted_sequences@.contains(x)
    }

    /// Number of accepted sequences inside the window.
    pub closed spec fn size(self) -> nat {
        self.accepted_sequences@.len()
    }

    /// Running counters: accepted, replays, below floor, above ceiling.
    pub closed spec fn counters(self) -> (u64, u64, u64, u64) {
        (
            self.total_accepted,
            self.total_replay_count,
            self.total_below_floor_count,
            self.total_above_ceiling_count,
        )
    }

    /// Recent decisions.
    pub closed spec fn audit(self) -> Seq<ReplayAuditEntry> {
        self.audit_trail@
    }

    /// Bound on the audit trail.
    pub closed spec fn audit_bound(self) -> usize {
        self.max_audit_entries
    }

    /// Session identity.
    pub closed spec fn session(self) -> Seq<char> {
        self.session_id@
    }

    /// The ledger's invariant, readable by callers.
    pub fn lemma_wf(&self)
        ensures
            self.width() >= 1,
            self.floor() <= self.ceiling(),
            self.ceiling() > self.width() ==> self.floor() >= self.ceiling() - self.width(),
            forall|x: u64| #[trigger] self.holds(x) ==> self.floor() <= x <= self.ceiling(),
            self.size() <= self.ceiling() - self.floor() + 1,
            self.size() <= self.width() + 1,
            self.size() == window_held(*self),
            self.audit().len() <= self.audit_bound(),
            ledger_valid(*self),
    {
        proof {
            use_type_invariant(self);
            self.lemma_valid();
            assert forall|x: u64| #[trigger] self.holds(x) implies self.floor() <= x
                <= self.ceiling() by {
                let k = choose|k: int|
                    0 <= k < self.accepted_sequences@.len() && self.accepted_sequences@[k] == x;
                assert(self.window_floor <= self.accepted_sequences@[k] <= self.window_ceiling);
            }
            lemma_increasing_len(self.accepted_sequences@, self.window_floor as int, self.window_ceiling as int);
        }
    }

    /// Held sequences counted through `holds` are those of the window.
    proof fn lemma_held_in_count(self, lo: int, n: nat)
        ensures
            held_in(self, lo, n) == count_in(self.accepted_sequences@, lo, n),
        decreases n,
    {
        if n > 0 {
            self.lemma_held_in_count(lo, (n - 1) as nat);
        }
    }

    /// Every ledger value is valid: the invariant read through the public
    /// spec functions.
    proof fn lemma_valid(self)
        requires
            self.wf(),
        ensures
            ledger_valid(self),
    {
        let n = (self.window_ceiling - self.window_floor + 1) as nat;
        assert forall|i: int| 0 <= i < self.accepted_sequences@.len() implies self.window_floor
            <= #[trigger] self.accepted_sequences@[i] < self.window_floor + n by {}
        lemma_count_in_len(self.accepted_sequences@, self.window_floor as int, n);
        self.lemma_held_in_count(self.window_floor as int, n);
        assert forall|x: u64| #[trigger] self.holds(x) implies self.floor() <= x <= self.ceiling() by {
            let k = choose|k: int| 0 <= k < self.accepted_sequences@.len() && self.accepted_sequences@[k] == x;
            assert(self.window_floor <= self.accepted_sequences@[k] <= self.window_ceiling);
        }
    }

    /// The verdict for a sequence in the current state.
    pub open spec fn verdict_for(self, sequence: u64) -> ReplayVerdict {
        if sequence < self.floor() {
            ReplayVerdict::BelowFloor
        } else if self.ceiling() > 0 && sequence > sat_add(self.ceiling(), self.width()) {
            ReplayVerdict::AboveCeiling
        } else if self.holds(sequence) {
            ReplayVerdict::Replay
        } else {
            ReplayVerdict::Accept
        }
    }

    /// Recording a decision for `sequence` cannot overflow a counter.
    pub open spec fn can_record(self, sequence: u64) -> bool {
        match self.verdict_for(sequence) {
            ReplayVerdict::Accept => self.counters().0 < u64::MAX,
            ReplayVerdict::Replay => self.counters().1 < u64::MAX,
            ReplayVerdict::BelowFloor => self.counters().2 < u64::MAX,
            ReplayVerdict::AboveCeiling => self.counters().3 < u64::MAX,
        }
    }

    /// `next` is this ledger after recording verdict `v` for `sequence`.
    pub open spec fn recorded(
        self,
        next: AntiReplayLedger,
        sequence: u64,
        tick: u64,
        envelope_hash: Option<ContentHash>,
        v: ReplayVerdict,
    ) -> bool {
        let c = self.counters();
        let nc = next.counters();
        let entry = ReplayAuditEntry { sequence, verdict: v, checked_at_tick: tick, envelope_hash };
        let trail = self.audit().push(entry);
        &&& v == self.verdict_for(sequence)
        &&& next.size() == window_held(next)
        &&& next.width() == self.width()
        &&& next.session() == self.session()
        &&& next.audit_bound() == self.audit_bound()
        &&& next.audit() == if trail.len() > self.audit_bound() {
            trail.drop_first()
        } else {
            trail
        }
        &&& if v == ReplayVerdict::Accept {
            let ceiling = if sequence > self.ceiling() {
                sequence
            } else {
                self.ceiling()
            };
            &&& next.ceiling() == ceiling
            &&& next.floor() == if ceiling > self.width() && ceiling - self.width() > self.floor() {
                (ceiling - self.width()) as u64
            } else {
                self.floor()
            }
            &&& forall|x: u64|
                #[trigger] next.holds(x) == ((self.holds(x) || x == sequence) && x >= next.floor())
            &&& nc == ((c.0 + 1) as u64, c.1, c.2, c.3)
        } else {
            &&& next.ceiling() == self.ceiling()
            &&& next.floor() == self.floor()
            &&& forall|x: u64| #[trigger] next.holds(x) == self.holds(x)
            &&& nc == match v {
                ReplayVerdict::Replay => (c.0, (c.1 + 1) as u64, c.2, c.3),
                ReplayVerdict::BelowFloor => (c.0, c.1, (c.2 + 1) as u64, c.3),
                _ => (c.0, c.1, c.2, (c.3 + 1) as u64),
            }
        }
    }

    /// A ledger for a session with the given window width (at least one)
    /// and audit bound.
    pub fn new(session_id: String, window_width: u64, max_audit_entries: usize) -> (r: Self)
        ensures
            r.session() == session_id@,
            r.floor() == 0,
            r.ceiling() == 0,
            r.width() == if window_width >= 1 {
                window_width
            } else {
                1
            },
            forall|x: u64| !#[trigger] r.holds(x),
            r.size() == 0,
            r.counters() == (0u64, 0u64, 0u64, 0u64),
            r.audit().len() == 0,
            r.audit_bound() == max_audit_entries,
    {
        AntiReplayLedger {
            session_id,
            window_floor: 0,
            window_ceiling: 0,
            window_width: if window_width >= 1 {
                window_width
            } else {
                1
            },
            accepted_sequences: Vec::new(),
            total_replay_count: 0,
            total_below_floor_count: 0,
            total_above_ceiling_count: 0,
            total_accepted: 0,
            audit_trail: Vec::new(),
            max_audit_entries,
        }
    }

    fn check_sequence(&self, sequence: u64) -> (r: ReplayVerdict)
        ensures
            r == self.verdict_for(sequence),
    {
        if sequence < self.window_floor {
            return ReplayVerdict::BelowFloor;
        }
        if self.window_ceiling > 0 && sequence > self.window_ceiling.saturating_add(
            self.window_width,
        ) {
            return ReplayVerdict::AboveCeiling;
        }
        if seq_contains(&self.accepted_sequences, sequence) {
            return ReplayVerdict::Replay;
        }
        ReplayVerdict::Accept
    }

    /// Check and record a sequence number: `Accept` when it is new and
    /// inside the window (advancing the window and evicting what falls below
    /// the new floor); every decision enters the audit trail.
    pub fn check_and_record(
        &mut self,
        sequence: u64,
        tick: u64,
        envelope_hash: Option<ContentHash>,
    ) -> (r: ReplayVerdict)
        requires
            old(self).can_record(sequence),
        ensures
            old(self).recorded(*final(self), sequence, tick, envelope_hash, r),
            ledger_valid(*old(self)),
            ledger_valid(*final(self)),
    {
        proof {
            use_type_invariant(&*self);
            self.lemma_valid();
        }
        let verdict = self.check_sequence(sequence);
        if verdict == ReplayVerdict::Accept {
            let mut accepted: Vec<u64> = Vec::new();
            std::mem::swap(&mut accepted, &mut self.accepted_sequences);
            let ghost old_acc = accepted@;
            proof {
                assert forall|y: u64| #[trigger] old_acc.contains(y) implies old(self).window_floor
                    <= y <= old(self).window_ceiling by {
                    let k = choose|k: int| 0 <= k < old_acc.len() && old_acc[k] == y;
                    assert(old(self).accepted_sequences@[k] == y);
                }
            }
            sorted_insert(&mut accepted, sequence);
            let ceiling = if sequence > self.window_ceiling {
                sequence
            } else {
                self.window_ceiling
            };
            let mut floor = self.window_floor;
            if ceiling > self.window_width {
                let new_floor = ceiling - self.window_width;
                if new_floor > floor {
                    floor = new_floor;
                    accepted = drop_below(&accepted, new_floor);
                }
            }
            proof {
                assert forall|i: int| 0 <= i < accepted@.len() implies floor
                    <= #[trigger] accepted@[i] <= ceiling by {
                    let y = accepted@[i];
                    assert(accepted@.contains(y));
                    if old_acc.contains(y) {
                        assert(old(self).window_floor <= y <= old(self).window_ceiling);
                    }
                }
                assert(floor <= ceiling);
                assert(ceiling > self.window_width ==> floor >= ceiling - self.window_width);
                assert(strictly_increasing(accepted@));
                assert(self.window_width >= 1);
            }
            let mut trail: Vec<ReplayAuditEntry> = Vec::new();
            std::mem::swap(&mut trail, &mut self.audit_trail);
            *self = AntiReplayLedger {
                session_id: self.session_id.clone(),
                window_floor: floor,
                window_ceiling: ceiling,
                window_width: self.window_width,
                accepted_sequences: accepted,
                total_replay_count: self.total_replay_count,
                total_below_floor_count: self.total_below_floor_count,
                total_above_ceiling_count: self.total_above_ceiling_count,
                total_accepted: self.total_accepted + 1,
                audit_trail: trail,
                max_audit_entries: self.max_audit_entries,
            };
        } else {
            match verdict {
                ReplayVerdict::Replay => {
                    self.total_replay_count = self.total_replay_count + 1;
                },
                ReplayVerdict::BelowFloor => {
                    self.total_below_floor_count = self.total_below_floor_count + 1;
                },
                _ => {
                    self.total_above_ceiling_count = self.total_above_ceiling_count + 1;
                },
            }
        }
        let entry = ReplayAuditEntry { sequence, verdict, checked_at_tick: tick, envelope_hash };
        let mut trail: Vec<ReplayAuditEntry> = Vec::new();
        std::mem::swap(&mut trail, &mut self.audit_trail);
        let ghost before = trail@;
        trail.push(entry);
        if trail.len() > self.max_audit_entries {
            trail.remove(0);
            assert(trail@ =~= before.push(entry).drop_first());
        }
        self.audit_trail = trail;
        proof {
            use_type_invariant(&*self);
            self.lemma_valid();
        }
        verdict
    }

    /// The current window floor.
    pub fn window_floor(&self) -> (r: u64)
        ensures
            r == self.floor(),
    {
        self.window_floor
    }

    /// The current window ceiling.
    pub fn window_ceiling(&self) -> (r: u64)
        ensures
            r == self.ceiling(),
    {
        self.window_ceiling
    }

    /// Total accepted messages.
    pub fn total_accepted(&self) -> (r: u64)
        ensures
            r == self.counters().0,
    {
        self.total_accepted
    }

    /// Total replays detected.
    pub fn total_replays(&self) -> (r: u64)
        ensures
            r == self.counters().1,
    {
        self.total_replay_count
    }

    /// Total below-floor rejections.
    pub fn total_below_floor(&self) -> (r: u64)
        ensures
            r == self.counters().2,
    {
        self.total_below_floor_count
    }

    /// Total messages checked (accepted plus every rejection).
    pub fn total_checked(&self) -> (r: u64)
        requires
            self.counters().0 + self.counters().1 + self.counters().2 + self.counters().3
                <= u64::MAX,
        ensures
            r == self.counters().0 + self.counters().1 + self.counters().2 + self.counters().3,
    {
        self.total_accepted + self.total_replay_count + self.total_below_floor_count
            + self.total_above_ceiling_count
    }

    /// The session this ledger belongs to.
    pub fn session_id(&self) -> (r: &str)
        ensures
            r@ == self.session(),
    {
        self.session_id.as_str()
    }

    /// Number of sequences currently in the window.
    pub fn window_size(&self) -> (r: usize)
        ensures
            r == self.size(),
    {
        self.accepted_sequences.len()
    }

    /// The audit trail (the most recent decisions).
    pub fn audit_trail(&self) -> (r: &[ReplayAuditEntry])
        ensures
            r@ == self.audit(),
    {
        self.audit_trail.as_slice()
    }

    /// Bytes hashed into the state hash.
    pub open spec fn state_input(self) -> Seq<u8> {
        utf8("franken::replay_ledger::"@) + utf8(self.session()) + seq![0u8] + u64_le(self.floor())
            + u64_le(self.ceiling()) + u64_le(self.counters().0) + u64_le(self.counters().1)
    }

    /// A summary hash of the ledger state for checkpointing.
    pub fn state_hash(&self) -> (r: ContentHash)
        ensures
            r@ == sha256_digest(self.state_input()),
    {
        let mut pre: Vec<u8> = Vec::new();
        push_str(&mut pre, "franken::replay_ledger::");
        push_str(&mut pre, self.session_id.as_str());
        pre.push(0u8);
        push_u64_le(&mut pre, self.window_floor);
        push_u64_le(&mut pre, self.window_ceiling);
        push_u64_le(&mut pre, self.total_accepted);
        push_u64_le(&mut pre, self.total_replay_count);
        assert(pre@ =~= self.state_input());
        ContentHash::compute(pre.as_slice())
    }
}

// ---------------------------------------------------------------------------
// Degraded-mode policy
// ---------------------------------------------------------------------------

/// Why a session cannot maintain full security guarantees.
#[derive(Debug, Clone, Copy, PartialEq, Eq, PartialOrd, Ord, Hash, Structural)]
pub enum DegradedSeverity {
    /// MAC still verifies but the epoch has advanced (stale key).
    StaleKey,
    /// MAC verification failed on a subset of messages.
    PartialMacFailure,
    /// The session key is compromised or the peer cannot be verified.
    IdentityCompromised,
}

impl DegradedSeverity {
    /// Stable name of the severity.
    pub open spec fn name(self) -> Seq<char> {
        match self {
            DegradedSeverity::StaleKey => "stale_key"@,
            DegradedSeverity::PartialMacFailure => "partial_mac_failure"@,
            DegradedSeverity::IdentityCompromised => "identity_compromised"@,
        }
    }

    /// Stable name of the severity.
    pub fn as_str(self) -> (r: &'static str)
        ensures
            r@ == self.name(),
    {
        match self {
            DegradedSeverity::StaleKey => "stale_key",
            DegradedSeverity::PartialMacFailure => "partial_mac_failure",
            DegradedSeverity::IdentityCompromised => "identity_compromised",
        }
    }

    /// Display rendering (the stable name).
    pub fn to_string(&self) -> (r: String)
        ensures
            r@ == self.name(),
    {
        owned(self.as_str())
    }
}

/// Kind of operation attempted in degraded mode.
#[derive(Debug, Clone, Copy, PartialEq, Eq, Hash, Structural)]
pub enum DegradedOperationKind {
    ReadHostcall,
    WriteHostcall,
    LifecycleOperation,
    Close,
}

impl DegradedOperationKind {
    /// Stable name of the operation kind.
    pub open spec fn name(self) -> Seq<char> {
        match self {
            DegradedOperationKind::ReadHostcall => "read_hostcall"@,
            DegradedOperationKind::WriteHostcall => "write_hostcall"@,
            DegradedOperationKind::LifecycleOperation => "lifecycle_operation"@,
            DegradedOperationKind::Close => "close"@,
        }
    }

    /// Stable name of the operation kind.
    pub fn as_str(self) -> (r: &'static str)
        ensures
            r@ == self.name(),
    {
        match self {
            DegradedOperationKind::ReadHostcall => "read_hostcall",
            DegradedOperationKind::WriteHostcall => "write_hostcall",
            DegradedOperationKind::LifecycleOperation => "lifecycle_operation",
            DegradedOperationKind::Close => "close",
        }
    }

    /// Display rendering (the stable name).
    pub fn to_string(&self) -> (r: String)
        ensures
            r@ == self.name(),
    {
        owned(self.as_str())
    }
}

/// What operations are allowed in degraded mode.
#[derive(Debug, Clone, Copy, PartialEq, Eq, Structural)]
pub struct DegradedModePolicy {
    /// The severity that triggered degraded mode.
    pub severity: DegradedSeverity,
    pub allow_readonly_hostcalls: bool,
    pub allow_write_hostcalls: bool,
    pub allow_lifecycle_operations: bool,
    /// Messages permitted in degraded mode before forced close.
    pub max_degraded_messages: u64,
    /// Ticks permitted in degraded mode before forced close.
    pub max_degraded_ticks: u64,
    /// Whether to attempt automatic re-key.
    pub auto_rekey: bool,
    /// Whether to emit evidence for degraded-mode operation.
    pub emit_evidence: bool,
}

impl DegradedModePolicy {
    /// The strict policy: no data flow, evidence required.
    pub open spec fn strict_spec(severity: DegradedSeverity) -> DegradedModePolicy {
        DegradedModePolicy {
            severity,
            allow_readonly_hostcalls: false,
            allow_write_hostcalls: false,
            allow_lifecycle_operations: false,
            max_degraded_messages: 0,
            max_degraded_ticks: 0,
            auto_rekey: false,
            emit_evidence: true,
        }
    }

    /// The permissive policy: reads allowed, writes blocked.
    pub open spec fn permissive_spec(severity: DegradedSeverity) -> DegradedModePolicy {
        DegradedModePolicy {
            severity,
            allow_readonly_hostcalls: true,
            allow_write_hostcalls: false,
            allow_lifecycle_operations: false,
            max_degraded_messages: 100,
            max_degraded_ticks: 5_000,
            auto_rekey: true,
            emit_evidence: true,
        }
    }

    /// The default policy for a severity.
    pub open spec fn for_severity_spec(severity: DegradedSeverity) -> DegradedModePolicy {
        match severity {
            DegradedSeverity::StaleKey => DegradedModePolicy {
                severity,
                allow_readonly_hostcalls: true,
                allow_write_hostcalls: true,
                allow_lifecycle_operations: false,
                max_degraded_messages: 1_000,
                max_degraded_ticks: 10_000,
                auto_rekey: true,
                emit_evidence: true,
            },
            DegradedSeverity::PartialMacFailure => DegradedModePolicy::permissive_spec(severity),
            DegradedSeverity::IdentityCompromised => DegradedModePolicy::strict_spec(severity),
        }
    }

    /// Strict policy: no data flow permitted, evidence required.
    pub fn strict(severity: DegradedSeverity) -> (r: Self)
        ensures
            r == DegradedModePolicy::strict_spec(severity),
    {
        DegradedModePolicy {
            severity,
            allow_readonly_hostcalls: false,
            allow_write_hostcalls: false,
            allow_lifecycle_operations: false,
            max_degraded_messages: 0,
            max_degraded_ticks: 0,
            auto_rekey: false,
            emit_evidence: true,
        }
    }

    /// Permissive policy: read-only hostcalls allowed, writes blocked.
    pub fn permissive(severity: DegradedSeverity) -> (r: Self)
        ensures
            r == DegradedModePolicy::permissive_spec(severity),
    {
        DegradedModePolicy {
            severity,
            allow_readonly_hostcalls: true,
            allow_write_hostcalls: false,
            allow_lifecycle_operations: false,
            max_degraded_messages: 100,
            max_degraded_ticks: 5_000,
            auto_rekey: true,
            emit_evidence: true,
        }
    }

    /// Default policy for a given severity.
    pub fn for_severity(severity: DegradedSeverity) -> (r: Self)
        ensures
            r == DegradedModePolicy::for_severity_spec(severity),
    {
        match severity {
            DegradedSeverity::StaleKey => DegradedModePolicy {
                severity,
                allow_readonly_hostcalls: true,
                allow_write_hostcalls: true,
                allow_lifecycle_operations: false,
                max_degraded_messages: 1_000,
                max_degraded_ticks: 10_000,
                auto_rekey: true,
                emit_evidence: true,
            },
            DegradedSeverity::PartialMacFailure => DegradedModePolicy::permissive(severity),
            DegradedSeverity::IdentityCompromised => DegradedModePolicy::strict(severity),
        }
    }

    /// Whether any data-plane operation is permitted.
    pub fn permits_any_data(&self) -> (r: bool)
        ensures
            r == (self.allow_readonly_hostcalls || self.allow_write_hostcalls),
    {
        self.allow_readonly_hostcalls || self.allow_write_hostcalls
    }

    /// Whether an operation kind is allowed (closing always is).
    pub open spec fn allows(self, op: DegradedOperationKind) -> bool {
        match op {
            DegradedOperationKind::ReadHostcall => self.allow_readonly_hostcalls,
            DegradedOperationKind::WriteHostcall => self.allow_write_hostcalls,
            DegradedOperationKind::LifecycleOperation => self.allow_lifecycle_operations,
            DegradedOperationKind::Close => true,
        }
    }

    /// Check whether a specific operation kind is allowed.
    pub fn is_operation_allowed(&self, op: DegradedOperationKind) -> (r: bool)
        ensures
            r == self.allows(op),
    {
        match op {
            DegradedOperationKind::ReadHostcall => self.allow_readonly_hostcalls,
            DegradedOperationKind::WriteHostcall => self.allow_write_hostcalls,
            DegradedOperationKind::LifecycleOperation => self.allow_lifecycle_operations,
            DegradedOperationKind::Close => true,
        }
    }
}

// ---------------------------------------------------------------------------
// ProtocolError
// ---------------------------------------------------------------------------

/// Errors from protocol-level session operations.
#[derive(Debug, Clone, Copy, PartialEq, Eq)]
pub enum ProtocolError {
    IllegalTransition { from: SessionPhaseTag, to: SessionPhaseTag },
    EpochMismatch { schedule_epoch: SecurityEpoch, current_epoch: SecurityEpoch },
    IncompleteKeySchedule { stages_derived: usize },
    ReplayRejected { sequence: u64, verdict: ReplayVerdict },
    DegradedModeBlocked { operation: DegradedOperationKind, severity: DegradedSeverity },
    DegradedBudgetExhausted { messages_used: u64, messages_limit: u64 },
}

impl ProtocolError {
    /// Display rendering of the error.
    pub open spec fn text(self) -> Seq<char> {
        match self {
            ProtocolError::IllegalTransition { from, to } => "illegal session transition: "@
                + from.name() + " -> "@ + to.name(),
            ProtocolError::EpochMismatch { schedule_epoch, current_epoch } =>
                "key schedule epoch "@ + decimal(schedule_epoch.0 as nat) + " != current epoch "@
                + decimal(current_epoch.0 as nat),
            ProtocolError::IncompleteKeySchedule { stages_derived } => "key schedule incomplete: "@
                + decimal(stages_derived as nat) + "/4 stages"@,
            ProtocolError::ReplayRejected { sequence, verdict } => "replay rejected: seq="@
                + decimal(sequence as nat) + ", verdict="@ + verdict.name(),
            ProtocolError::DegradedModeBlocked { operation, severity } => "operation "@
                + operation.name() + " blocked in degraded mode (severity="@ + severity.name()
                + ")"@,
            ProtocolError::DegradedBudgetExhausted { messages_used, messages_limit } =>
                "degraded-mode budget exhausted: "@ + decimal(messages_used as nat) + "/"@
                + decimal(messages_limit as nat),
        }
    }

    /// Display rendering of the error.
    pub fn to_string(&self) -> (r: String)
        ensures
            r@ == self.text(),
    {
        match self {
            ProtocolError::IllegalTransition { from, to } => {
                let mut s = owned("illegal session transition: ");
                s.append(from.as_str());
                s.append(" -> ");
                s.append(to.as_str());
                s
            },
            ProtocolError::EpochMismatch { schedule_epoch, current_epoch } => {
                let mut s = owned("key schedule epoch ");
                s.append(u64_to_decimal(schedule_epoch.as_u64()).as_str());
                s.append(" != current epoch ");
                s.append(u64_to_decimal(current_epoch.as_u64()).as_str());
                s
            },
            ProtocolError::IncompleteKeySchedule { stages_derived } => {
                let mut s = owned("key schedule incomplete: ");
                s.append(u64_to_decimal(*stages_derived as u64).as_str());
                s.append("/4 stages");
                s
            },
            ProtocolError::ReplayRejected { sequence, verdict } => {
                let mut s = owned("replay rejected: seq=");
                s.append(u64_to_decimal(*sequence).as_str());
                s.append(", verdict=");
                s.append(verdict.as_str());
                s
            },
            ProtocolError::DegradedModeBlocked { operation, severity } => {
                let mut s = owned("operation ");
                s.append(operation.as_str());
                s.append(" blocked in degraded mode (severity=");
                s.append(severity.as_str());
                s.append(")");
                s
            },
            ProtocolError::DegradedBudgetExhausted { messages_used, messages_limit } => {
                let mut s = owned("degraded-mode budget exhausted: ");
                s.append(u64_to_decimal(*messages_used).as_str());
                s.append("/");
                s.append(u64_to_decimal(*messages_limit).as_str());
                s
            },
        }
    }
}

// ---------------------------------------------------------------------------
// SessionProtocolState
// ---------------------------------------------------------------------------

/// A recorded phase transition.
#[derive(Debug, Clone, PartialEq, Eq)]
pub struct TransitionRecord {
    pub from: SessionPhaseTag,
    pub to: SessionPhaseTag,
    pub trigger: TransitionTrigger,
    pub tick: u64,
}

/// The session protocol state: phase, key schedule, anti-replay ledger and
/// degraded-mode bookkeeping.
#[derive(Debug, Clone)]
pub struct SessionProtocolState {
    pub phase: SessionPhaseTag,
    pub session_id: String,
    pub extension_id: String,
    pub host_id: String,
    /// Key schedule, populated after handshake.
    pub key_schedule: Option<SessionKeySchedule>,
    pub replay_ledger: AntiReplayLedger,
    /// Degraded-mode policy, populated when entering degraded mode.
    pub degraded_policy: Option<DegradedModePolicy>,
    /// Messages exchanged in degraded mode.
    pub degraded_messages: u64,
    /// Tick at which degraded mode was entered.
    pub degraded_entered_tick: Option<u64>,
    /// History of phase transitions.
    pub transition_history: Vec<TransitionRecord>,
}

/// `a - b`, floored at zero.
pub open spec fn sat_sub(a: u64, b: u64) -> u64 {
    if a >= b {
        (a - b) as u64
    } else {
        0
    }
}

impl SessionProtocolState {
    /// `next` equals this state apart from the phase, degraded bookkeeping
    /// and transition history.
    pub open spec fn same_session(self, next: SessionProtocolState) -> bool {
        &&& next.session_id == self.session_id
        &&& next.extension_id == self.extension_id
        &&& next.host_id == self.host_id
        &&& next.key_schedule == self.key_schedule
        &&& next.replay_ledger == self.replay_ledger
    }

    /// `next` is this state after a successful transition to `to`.
    pub open spec fn moved_to(
        self,
        next: SessionProtocolState,
        to: SessionPhaseTag,
        trigger: TransitionTrigger,
        tick: u64,
    ) -> bool {
        &&& self.same_session(next)
        &&& next.phase == to
        &&& next.transition_history@ == self.transition_history@.push(
            TransitionRecord { from: self.phase, to, trigger, tick },
        )
        &&& if to == SessionPhaseTag::Established {
            &&& next.degraded_policy is None
            &&& next.degraded_messages == 0
            &&& next.degraded_entered_tick is None
        } else {
            &&& next.degraded_policy == self.degraded_policy
            &&& next.degraded_messages == self.degraded_messages
            &&& next.degraded_entered_tick == self.degraded_entered_tick
        }
    }

    /// A fresh session in the `Uninit` phase.
    pub fn new(
        session_id: String,
        extension_id: String,
        host_id: String,
        replay_window_width: u64,
        max_audit_entries: usize,
    ) -> (r: Self)
        ensures
            r.phase == SessionPhaseTag::Uninit,
            r.session_id == session_id,
            r.extension_id == extension_id,
            r.host_id == host_id,
            r.key_schedule is None,
            r.replay_ledger.session() == session_id@,
            r.replay_ledger.floor() == 0,
            r.replay_ledger.ceiling() == 0,
            r.replay_ledger.width() == if replay_window_width >= 1 {
                replay_window_width
            } else {
                1
            },
            forall|x: u64| !#[trigger] r.replay_ledger.holds(x),
            r.replay_ledger.counters() == (0u64, 0u64, 0u64, 0u64),
            r.replay_ledger.audit().len() == 0,
            r.replay_ledger.audit_bound() == max_audit_entries,
            r.degraded_policy is None,
            r.degraded_messages == 0,
            r.degraded_entered_tick is None,
            r.transition_history@.len() == 0,
    {
        let replay_ledger = AntiReplayLedger::new(
            session_id.clone(),
            replay_window_width,
            max_audit_entries,
        );
        SessionProtocolState {
            phase: SessionPhaseTag::Uninit,
            session_id,
            extension_id,
            host_id,
            key_schedule: None,
            replay_ledger,
            degraded_policy: None,
            degraded_messages: 0,
            degraded_entered_tick: None,
            transition_history: Vec::new(),
        }
    }

    /// Attempt a phase transition; recovery to `Established` clears the
    /// degraded-mode bookkeeping.
    pub fn transition(&mut self, to: SessionPhaseTag, trigger: TransitionTrigger, tick: u64) -> (r:
        Result<(), ProtocolError>)
        ensures
            r is Ok == valid_edge(old(self).phase, to),
            r is Ok ==> old(self).moved_to(*final(self), to, trigger, tick),
            r is Err ==> r == Err::<(), ProtocolError>(
                ProtocolError::IllegalTransition { from: old(self).phase, to },
            ) && *final(self) == *old(self),
    {
        if !is_valid_transition(self.phase, to) {
            return Err(ProtocolError::IllegalTransition { from: self.phase, to });
        }
        let record = TransitionRecord { from: self.phase, to, trigger, tick };
        self.transition_history.push(record);
        self.phase = to;
        if to == SessionPhaseTag::Established {
            self.degraded_policy = None;
            self.degraded_messages = 0;
            self.degraded_entered_tick = None;
        }
        Ok(())
    }

    /// Attach a key schedule after handshake completion; an incomplete
    /// schedule is refused.
    pub fn attach_key_schedule(&mut self, schedule: SessionKeySchedule) -> (r: Result<(), ProtocolError>)
        ensures
            r is Ok == (schedule.derived_stages@.len() == 4),
            r is Ok ==> final(self).key_schedule == Some(schedule),
            r is Err ==> r == Err::<(), ProtocolError>(
                ProtocolError::IncompleteKeySchedule {
                    stages_derived: schedule.derived_stages@.len() as usize,
                },
            ) && final(self).key_schedule == old(self).key_schedule,
            final(self).phase == old(self).phase,
            final(self).session_id == old(self).session_id,
            final(self).extension_id == old(self).extension_id,
            final(self).host_id == old(self).host_id,
            final(self).replay_ledger == old(self).replay_ledger,
            final(self).degraded_policy == old(self).degraded_policy,
            final(self).degraded_messages == old(self).degraded_messages,
            final(self).degraded_entered_tick == old(self).degraded_entered_tick,
            final(self).transition_history == old(self).transition_history,
    {
        if !schedule.is_complete() {
            return Err(
                ProtocolError::IncompleteKeySchedule { stages_derived: schedule.derived_stages.len() },
            );
        }
        self.key_schedule = Some(schedule);
        Ok(())
    }

    /// Enter degraded mode: install the default policy for the severity,
    /// reset the degraded counters, then transition to `DegradedOpen`.  The
    /// degraded bookkeeping is installed even when the transition is refused.
    pub fn enter_degraded(&mut self, severity: DegradedSeverity, reason: String, tick: u64) -> (r:
        Result<(), ProtocolError>)
        ensures
            ({
                let prepared = SessionProtocolState {
                    degraded_policy: Some(DegradedModePolicy::for_severity_spec(severity)),
                    degraded_messages: 0,
                    degraded_entered_tick: Some(tick),
                    ..*old(self)
                };
                &&& r is Ok == valid_edge(old(self).phase, SessionPhaseTag::DegradedOpen)
                &&& r is Ok ==> prepared.moved_to(
                    *final(self),
                    SessionPhaseTag::DegradedOpen,
                    TransitionTrigger::SecurityDegradation { reason },
                    tick,
                )
                &&& r is Err ==> r == Err::<(), ProtocolError>(
                    ProtocolError::IllegalTransition {
                        from: old(self).phase,
                        to: SessionPhaseTag::DegradedOpen,
                    },
                ) && *final(self) == prepared
            }),
    {
        let policy = DegradedModePolicy::for_severity(severity);
        self.degraded_policy = Some(policy);
        self.degraded_messages = 0;
        self.degraded_entered_tick = Some(tick);
        self.transition(
            SessionPhaseTag::DegradedOpen,
            TransitionTrigger::SecurityDegradation { reason },
            tick,
        )
    }

    /// The policy in force in degraded mode (strict when none is installed).
    pub open spec fn effective_policy(self) -> DegradedModePolicy {
        match self.degraded_policy {
            Some(p) => p,
            None => DegradedModePolicy::strict_spec(DegradedSeverity::IdentityCompromised),
        }
    }

    /// The result of `check_operation`.
    pub open spec fn operation_result(self, op: DegradedOperationKind, tick: u64) -> Result<
        (),
        ProtocolError,
    > {
        let policy = self.effective_policy();
        match self.phase {
            SessionPhaseTag::Established => Ok(()),
            SessionPhaseTag::DegradedOpen => if !policy.allows(op) {
                Err(ProtocolError::DegradedModeBlocked { operation: op, severity: policy.severity })
            } else if op == DegradedOperationKind::Close {
                Ok(())
            } else if self.degraded_messages >= policy.max_degraded_messages {
                Err(
                    ProtocolError::DegradedBudgetExhausted {
                        messages_used: self.degraded_messages,
                        messages_limit: policy.max_degraded_messages,
                    },
                )
            } else if self.degraded_entered_tick matches Some(entered) && sat_sub(tick, entered)
                > policy.max_degraded_ticks {
                Err(
                    ProtocolError::DegradedBudgetExhausted {
                        messages_used: self.degraded_messages,
                        messages_limit: policy.max_degraded_messages,
                    },
                )
            } else {
                Ok(())
            },
            _ => Err(ProtocolError::IllegalTransition { from: self.phase, to: self.phase }),
        }
    }

    /// Check whether an operation is permitted in the current phase.
    pub fn check_operation(&self, op: DegradedOperationKind, tick: u64) -> (r: Result<(), ProtocolError>)
        ensures
            r == self.operation_result(op, tick),
    {
        match self.phase {
            SessionPhaseTag::Established => Ok(()),
            SessionPhaseTag::DegradedOpen => {
                let policy = match self.degraded_policy {
                    Some(p) => p,
                    None => DegradedModePolicy::strict(DegradedSeverity::IdentityCompromised),
                };
                if !policy.is_operation_allowed(op) {
                    return Err(
                        ProtocolError::DegradedModeBlocked { operation: op, severity: policy.severity },
                    );
                }
                if op == DegradedOperationKind::Close {
                    return Ok(());
                }
                if self.degraded_messages >= policy.max_degraded_messages {
                    return Err(
                        ProtocolError::DegradedBudgetExhausted {
                            messages_used: self.degraded_messages,
                            messages_limit: policy.max_degraded_messages,
                        },
                    );
                }
                match self.degraded_entered_tick {
                    Some(entered) => {
                        if tick.saturating_sub(entered) > policy.max_degraded_ticks {
                            return Err(
                                ProtocolError::DegradedBudgetExhausted {
                                    messages_used: self.degraded_messages,
                                    messages_limit: policy.max_degraded_messages,
                                },
                            );
                        }
                    },
                    None => {},
                }
                Ok(())
            },
            _ => Err(ProtocolError::IllegalTransition { from: self.phase, to: self.phase }),
        }
    }

    /// Check a sequence number against the anti-replay ledger.
    pub fn check_replay(&mut self, sequence: u64, tick: u64, envelope_hash: Option<ContentHash>) -> (r:
        Result<(), ProtocolError>)
        requires
            old(self).replay_ledger.can_record(sequence),
        ensures
            ({
                let v = old(self).replay_ledger.verdict_for(sequence);
                &&& old(self).replay_ledger.recorded(
                    final(self).replay_ledger,
                    sequence,
                    tick,
                    envelope_hash,
                    v,
                )
                &&& r == if v == ReplayVerdict::Accept {
                    Ok(())
                } else {
                    Err(ProtocolError::ReplayRejected { sequence, verdict: v })
                }
            }),
            final(self).phase == old(self).phase,
            final(self).session_id == old(self).session_id,
            final(self).extension_id == old(self).extension_id,
            final(self).host_id == old(self).host_id,
            final(self).key_schedule == old(self).key_schedule,
            final(self).degraded_policy == old(self).degraded_policy,
            final(self).degraded_messages == old(self).degraded_messages,
            final(self).degraded_entered_tick == old(self).degraded_entered_tick,
            final(self).transition_history == old(self).transition_history,
    {
        let verdict = self.replay_ledger.check_and_record(sequence, tick, envelope_hash);
        if verdict != ReplayVerdict::Accept {
            return Err(ProtocolError::ReplayRejected { sequence, verdict });
        }
        Ok(())
    }

    /// Count a data-plane message while in degraded mode.
    pub fn record_degraded_message(&mut self)
        requires
            old(self).phase == SessionPhaseTag::DegradedOpen ==> old(self).degraded_messages
                < u64::MAX,
        ensures
            final(self).degraded_messages == if old(self).phase == SessionPhaseTag::DegradedOpen {
                (old(self).degraded_messages + 1) as u64
            } else {
                old(self).degraded_messages
            },
            final(self).phase == old(self).phase,
            old(self).same_session(*final(self)),
            final(self).degraded_policy == old(self).degraded_policy,
            final(self).degraded_entered_tick == old(self).degraded_entered_tick,
            final(self).transition_history == old(self).transition_history,
    {
        if self.phase == SessionPhaseTag::DegradedOpen {
            self.degraded_messages = self.degraded_messages + 1;
        }
    }

    /// Check that the key schedule, if attached, belongs to the current epoch.
    pub fn validate_epoch(&self, current_epoch: SecurityEpoch) -> (r: Result<(), ProtocolError>)
        ensures
            r == match self.key_schedule {
                Some(s) => if s.epoch != current_epoch {
                    Err(
                        ProtocolError::EpochMismatch { schedule_epoch: s.epoch, current_epoch },
                    )
                } else {
                    Ok(())
                },
                None => Ok(()),
            },
    {
        match &self.key_schedule {
            Some(schedule) => {
                if !schedule.is_valid_for_epoch(current_epoch) {
                    return Err(
                        ProtocolError::EpochMismatch { schedule_epoch: schedule.epoch, current_epoch },
                    );
                }
                Ok(())
            },
            None => Ok(()),
        }
    }
}

// ---------------------------------------------------------------------------
// Transition table
// ---------------------------------------------------------------------------

/// The protocol's transitions, listed explicitly: the table admits exactly
/// these ten `(from, to)` pairs, and nothing leaves `Closed`.
pub proof fn law_transition_table(from: SessionPhaseTag, to: SessionPhaseTag)
    ensures
        valid_edge(from, to) == (
        (from == SessionPhaseTag::Uninit && to == SessionPhaseTag::Negotiating) || (from
            == SessionPhaseTag::Negotiating && to == SessionPhaseTag::Established) || (from
            == SessionPhaseTag::Negotiating && to == SessionPhaseTag::Closed) || (from
            == SessionPhaseTag::Established && to == SessionPhaseTag::DegradedOpen) || (from
            == SessionPhaseTag::Established && to == SessionPhaseTag::Closing) || (from
            == SessionPhaseTag::Established && to == SessionPhaseTag::Closed) || (from
            == SessionPhaseTag::DegradedOpen && to == SessionPhaseTag::Established) || (from
            == SessionPhaseTag::DegradedOpen && to == SessionPhaseTag::Closing) || (from
            == SessionPhaseTag::DegradedOpen && to == SessionPhaseTag::Closed) || (from
            == SessionPhaseTag::Closing && to == SessionPhaseTag::Closed)),
        !valid_edge(SessionPhaseTag::Closed, to),
        !valid_edge(from, from),
{
    assert(table_edge(0) == (SessionPhaseTag::Uninit, SessionPhaseTag::Negotiating));
    assert(table_edge(1) == (SessionPhaseTag::Negotiating, SessionPhaseTag::Established));
    assert(table_edge(2) == (SessionPhaseTag::Negotiating, SessionPhaseTag::Closed));
    assert(table_edge(3) == (SessionPhaseTag::Established, SessionPhaseTag::DegradedOpen));
    assert(table_edge(4) == (SessionPhaseTag::Established, SessionPhaseTag::Closing));
    assert(table_edge(5) == (SessionPhaseTag::Established, SessionPhaseTag::Closed));
    assert(table_edge(7) == (SessionPhaseTag::DegradedOpen, SessionPhaseTag::Established));
    assert(table_edge(8) == (SessionPhaseTag::DegradedOpen, SessionPhaseTag::Closing));
    assert(table_edge(9) == (SessionPhaseTag::DegradedOpen, SessionPhaseTag::Closed));
    assert(table_edge(10) == (SessionPhaseTag::Closing, SessionPhaseTag::Closed));
}

// ---------------------------------------------------------------------------
// Corpus
// ---------------------------------------------------------------------------

/// Specimen family of the protocol corpus.
#[derive(Debug, Clone, Copy, PartialEq, Eq, PartialOrd, Ord, Hash, Structural)]
pub enum HspSpecimenFamily {
    HappyPath,
    HandshakeRejection,
    DegradedRecovery,
    DegradedBudgetExhaustion,
    AntiReplay,
    EpochMismatch,
    InvalidTransition,
    FullLifecycle,
}

impl HspSpecimenFamily {
    /// All families.
    pub const ALL: [HspSpecimenFamily; 8] = [
        HspSpecimenFamily::HappyPath,
        HspSpecimenFamily::HandshakeRejection,
        HspSpecimenFamily::DegradedRecovery,
        HspSpecimenFamily::DegradedBudgetExhaustion,
        HspSpecimenFamily::AntiReplay,
        HspSpecimenFamily::EpochMismatch,
        HspSpecimenFamily::InvalidTransition,
        HspSpecimenFamily::FullLifecycle,
    ];

    /// Stable name of the family.
    pub open spec fn name(self) -> Seq<char> {
        match self {
            HspSpecimenFamily::HappyPath => "happy_path"@,
            HspSpecimenFamily::HandshakeRejection => "handshake_rejection"@,
            HspSpecimenFamily::DegradedRecovery => "degraded_recovery"@,
            HspSpecimenFamily::DegradedBudgetExhaustion => "degraded_budget_exhaustion"@,
            HspSpecimenFamily::AntiReplay => "anti_replay"@,
            HspSpecimenFamily::EpochMismatch => "epoch_mismatch"@,
            HspSpecimenFamily::InvalidTransition => "invalid_transition"@,
            HspSpecimenFamily::FullLifecycle => "full_lifecycle"@,
        }
    }

    /// Display rendering (the stable name).
    pub fn to_string(&self) -> (r: String)
        ensures
            r@ == self.name(),
    {
        match self {
            HspSpecimenFamily::HappyPath => owned("happy_path"),
            HspSpecimenFamily::HandshakeRejection => owned("handshake_rejection"),
            HspSpecimenFamily::DegradedRecovery => owned("degraded_recovery"),
            HspSpecimenFamily::DegradedBudgetExhaustion => owned("degraded_budget_exhaustion"),
            HspSpecimenFamily::AntiReplay => owned("anti_replay"),
            HspSpecimenFamily::EpochMismatch => owned("epoch_mismatch"),
            HspSpecimenFamily::InvalidTransition => owned("invalid_transition"),
            HspSpecimenFamily::FullLifecycle => owned("full_lifecycle"),
        }
    }
}

impl Ranked for HspSpecimenFamily {
    open spec fn rank(self) -> nat {
        match self {
            HspSpecimenFamily::HappyPath => 0,
            HspSpecimenFamily::HandshakeRejection => 1,
            HspSpecimenFamily::DegradedRecovery => 2,
            HspSpecimenFamily::DegradedBudgetExhaustion => 3,
            HspSpecimenFamily::AntiReplay => 4,
            HspSpecimenFamily::EpochMismatch => 5,
            HspSpecimenFamily::InvalidTransition => 6,
            HspSpecimenFamily::FullLifecycle => 7,
        }
    }

    open spec fn variant_count() -> nat {
        8
    }

    open spec fn of_rank(r: nat) -> Self {
        if r == 0 {
            HspSpecimenFamily::HappyPath
        } else if r == 1 {
            HspSpecimenFamily::HandshakeRejection
        } else if r == 2 {
            HspSpecimenFamily::DegradedRecovery
        } else if r == 3 {
            HspSpecimenFamily::DegradedBudgetExhaustion
        } else if r == 4 {
            HspSpecimenFamily::AntiReplay
        } else if r == 5 {
            HspSpecimenFamily::EpochMismatch
        } else if r == 6 {
            HspSpecimenFamily::InvalidTransition
        } else {
            HspSpecimenFamily::FullLifecycle
        }
    }

    fn rank_exec(self) -> (r: usize) {
        match self {
            HspSpecimenFamily::HappyPath => 0,
            HspSpecimenFamily::HandshakeRejection => 1,
            HspSpecimenFamily::DegradedRecovery => 2,
            HspSpecimenFamily::DegradedBudgetExhaustion => 3,
            HspSpecimenFamily::AntiReplay => 4,
            HspSpecimenFamily::EpochMismatch => 5,
            HspSpecimenFamily::InvalidTransition => 6,
            HspSpecimenFamily::FullLifecycle => 7,
        }
    }

    fn count() -> (r: usize) {
        8
    }

    fn from_rank(r: usize) -> (x: Self) {
        HspSpecimenFamily::ALL[r]
    }

    proof fn lemma_rank(x: Self) {
    }

    proof fn lemma_count() {
    }

    proof fn lemma_of_rank(r: nat) {
    }
}

/// A specimen of the protocol corpus.
#[derive(Debug, Clone)]
pub struct HspSpecimen {
    pub name: String,
    pub family: HspSpecimenFamily,
    /// The session state after the specimen's scenario.
    pub final_state: SessionProtocolState,
    /// Transitions observed during the scenario.
    pub transition_count: usize,
    /// Whether the scenario ended as it is meant to.
    pub clean_completion: bool,
    /// Content hash of the specimen.
    pub content_hash: ContentHash,
}

/// Bytes hashed into a specimen hash.
pub open spec fn specimen_input(name: Seq<char>, phase: SessionPhaseTag, transitions: nat) -> Seq<u8> {
    utf8("franken::hsp_specimen::"@) + utf8(name) + seq![0u8] + utf8(phase.name()) + seq![0u8]
        + u64_le(transitions as u64)
}

fn specimen_hash(name: &str, phase: SessionPhaseTag, transitions: usize) -> (r: ContentHash)
    ensures
        r@ == sha256_digest(specimen_input(name@, phase, transitions as nat)),
{
    let mut buf: Vec<u8> = Vec::new();
    push_str(&mut buf, "franken::hsp_specimen::");
    push_str(&mut buf, name);
    buf.push(0u8);
    push_str(&mut buf, phase.as_str());
    buf.push(0u8);
    push_u64_le(&mut buf, transitions as u64);
    assert(buf@ =~= specimen_input(name@, phase, transitions as nat));
    ContentHash::compute(buf.as_slice())
}

/// Row `i` of the corpus: name, family, final phase, transition count.
pub open spec fn corpus_row(i: int) -> (Seq<char>, HspSpecimenFamily, SessionPhaseTag, nat) {
    if i == 0 {
        ("happy_path_full"@, HspSpecimenFamily::HappyPath, SessionPhaseTag::Closed, 4)
    } else if i == 1 {
        ("handshake_rejected"@, HspSpecimenFamily::HandshakeRejection, SessionPhaseTag::Closed, 2)
    } else if i == 2 {
        ("degraded_recovery"@, HspSpecimenFamily::DegradedRecovery, SessionPhaseTag::Established, 4)
    } else if i == 3 {
        (
            "degraded_budget_exhausted"@,
            HspSpecimenFamily::DegradedBudgetExhaustion,
            SessionPhaseTag::DegradedOpen,
            3,
        )
    } else if i == 4 {
        ("anti_replay_detection"@, HspSpecimenFamily::AntiReplay, SessionPhaseTag::Uninit, 0)
    } else if i == 5 {
        ("anti_replay_window_advance"@, HspSpecimenFamily::AntiReplay, SessionPhaseTag::Uninit, 0)
    } else if i == 6 {
        ("epoch_mismatch"@, HspSpecimenFamily::EpochMismatch, SessionPhaseTag::Uninit, 0)
    } else if i == 7 {
        ("invalid_transition"@, HspSpecimenFamily::InvalidTransition, SessionPhaseTag::Uninit, 0)
    } else if i == 8 {
        ("full_lifecycle"@, HspSpecimenFamily::FullLifecycle, SessionPhaseTag::Closed, 6)
    } else if i == 9 {
        ("session_expiry"@, HspSpecimenFamily::HappyPath, SessionPhaseTag::Closed, 3)
    } else if i == 10 {
        ("degraded_close"@, HspSpecimenFamily::DegradedRecovery, SessionPhaseTag::Closed, 5)
    } else {
        ("replay_threshold_breach"@, HspSpecimenFamily::AntiReplay, SessionPhaseTag::Closed, 3)
    }
}

/// The final anti-replay ledger of row `i`: window floor, window ceiling,
/// and the accepted, replay, below-floor and above-ceiling counters.
pub open spec fn corpus_ledger_row(i: int) -> (u64, u64, (u64, u64, u64, u64)) {
    if i == 4 {
        (0, 10, (10, 1, 0, 0))
    } else if i == 5 {
        (16, 20, (20, 0, 1, 0))
    } else if i == 8 {
        (0, 2, (2, 0, 0, 0))
    } else {
        (0, 0, (0, 0, 0, 0))
    }
}

impl HspSpecimen {
    /// The specimen is row `i` of the corpus, completed cleanly, with the
    /// row's final replay ledger.
    pub open spec fn is_row(self, i: int) -> bool {
        let row = corpus_row(i);
        &&& self.name@ == row.0
        &&& self.family == row.1
        &&& self.final_state.phase == row.2
        &&& self.transition_count == row.3
        &&& self.final_state.transition_history@.len() == row.3
        &&& self.clean_completion
        &&& self.content_hash@ == sha256_digest(specimen_input(row.0, row.2, row.3))
        &&& self.final_state.replay_ledger.floor() == corpus_ledger_row(i).0
        &&& self.final_state.replay_ledger.ceiling() == corpus_ledger_row(i).1
        &&& self.final_state.replay_ledger.counters() == corpus_ledger_row(i).2
    }
}

fn fresh_state(session: &str, width: u64) -> (r: SessionProtocolState)
    ensures
        r.phase == SessionPhaseTag::Uninit,
        r.session_id@ == session@,
        r.key_schedule is None,
        r.replay_ledger.floor() == 0,
        r.replay_ledger.ceiling() == 0,
        r.replay_ledger.width() == if width >= 1 {
            width
        } else {
            1
        },
        forall|x: u64| !#[trigger] r.replay_ledger.holds(x),
        r.replay_ledger.counters() == (0u64, 0u64, 0u64, 0u64),
        r.degraded_policy is None,
        r.degraded_messages == 0,
        r.transition_history@.len() == 0,
{
    SessionProtocolState::new(owned(session), owned("ext-a"), owned("host-b"), width, 50)
}

fn step(state: &mut SessionProtocolState, to: SessionPhaseTag, trigger: TransitionTrigger, tick: u64)
    requires
        valid_edge(old(state).phase, to),
    ensures
        old(state).moved_to(*final(state), to, trigger, tick),
{
    let r = state.transition(to, trigger, tick);
    assert(r is Ok);
}

fn handshake(state: &mut SessionProtocolState)
    requires
        old(state).phase == SessionPhaseTag::Uninit,
    ensures
        final(state).phase == SessionPhaseTag::Established,
        final(state).transition_history@.len() == old(state).transition_history@.len() + 2,
        old(state).same_session(*final(state)),
        final(state).degraded_policy is None,
        final(state).degraded_messages == 0,
{
    proof {
        law_transition_table(SessionPhaseTag::Uninit, SessionPhaseTag::Negotiating);
        law_transition_table(SessionPhaseTag::Negotiating, SessionPhaseTag::Established);
    }
    step(state, SessionPhaseTag::Negotiating, TransitionTrigger::HandshakeInitiated, 1);
    step(state, SessionPhaseTag::Established, TransitionTrigger::HandshakeCompleted, 2);
}

fn full_schedule(session: &str, transcript: &str) -> (r: SessionKeySchedule)
    ensures
        r.derived_stages@.len() == 4,
        r.epoch == SecurityEpoch(1),
{
    let mut ks = SessionKeySchedule::new(
        SecurityEpoch::from_raw(1),
        owned(session),
        owned("ext-a"),
        owned("host-b"),
        ContentHash::compute(transcript.as_bytes()),
    );
    let mut i: usize = 0;
    while i < 4
        invariant
            i <= 4,
            ks.derived_stages@.len() == i,
            ks.epoch == SecurityEpoch(1),
        decreases 4 - i,
    {
        let purpose = KeyStagePurpose::ALL[i];
        ks.record_stage(purpose, ContentHash::compute(purpose.domain_label().as_bytes()));
        i = i + 1;
    }
    ks
}

fn finish(name: &str, family: HspSpecimenFamily, state: SessionProtocolState, clean: bool) -> (r: HspSpecimen)
    ensures
        r.name@ == name@,
        r.family == family,
        r.final_state.phase == state.phase,
        r.final_state.transition_history@ == state.transition_history@,
        r.final_state.replay_ledger == state.replay_ledger,
        r.transition_count == state.transition_history@.len(),
        r.clean_completion == clean,
        r.content_hash@ == sha256_digest(
            specimen_input(name@, state.phase, state.transition_history@.len()),
        ),
{
    let tc = state.transition_history.len();
    let content_hash = specimen_hash(name, state.phase, tc);
    HspSpecimen {
        name: owned(name),
        family,
        final_state: state,
        transition_count: tc,
        clean_completion: clean,
        content_hash,
    }
}

fn specimen_happy_path() -> (r: HspSpecimen)
    ensures
        r.is_row(0),
{
    let mut state = fresh_state("spec-happy", 64);
    handshake(&mut state);
    proof {
        law_transition_table(SessionPhaseTag::Established, SessionPhaseTag::Closing);
        law_transition_table(SessionPhaseTag::Closing, SessionPhaseTag::Closed);
    }
    step(&mut state, SessionPhaseTag::Closing, TransitionTrigger::CloseInitiated, 3);
    step(&mut state, SessionPhaseTag::Closed, TransitionTrigger::DrainCompleted, 4);
    finish("happy_path_full", HspSpecimenFamily::HappyPath, state, true)
}

fn specimen_handshake_rejected() -> (r: HspSpecimen)
    ensures
        r.is_row(1),
{
    let mut state = fresh_state("spec-reject", 64);
    proof {
        law_transition_table(SessionPhaseTag::Uninit, SessionPhaseTag::Negotiating);
        law_transition_table(SessionPhaseTag::Negotiating, SessionPhaseTag::Closed);
    }
    step(&mut state, SessionPhaseTag::Negotiating, TransitionTrigger::HandshakeInitiated, 1);
    step(&mut state, SessionPhaseTag::Closed, TransitionTrigger::HandshakeRejected, 2);
    finish("handshake_rejected", HspSpecimenFamily::HandshakeRejection, state, true)
}

fn specimen_degraded_recovery() -> (r: HspSpecimen)
    ensures
        r.is_row(2),
{
    let mut state = fresh_state("spec-degraded-recovery", 64);
    handshake(&mut state);
    proof {
        law_transition_table(SessionPhaseTag::Established, SessionPhaseTag::DegradedOpen);
        law_transition_table(SessionPhaseTag::DegradedOpen, SessionPhaseTag::Established);
    }
    let r = state.enter_degraded(DegradedSeverity::StaleKey, owned("epoch_advanced"), 3);
    assert(r is Ok);
    step(&mut state, SessionPhaseTag::Established, TransitionTrigger::DegradedRecovery, 4);
    finish("degraded_recovery", HspSpecimenFamily::DegradedRecovery, state, true)
}

fn specimen_degraded_budget() -> (r: HspSpecimen)
    ensures
        r.is_row(3),
{
    let mut state = fresh_state("spec-degraded-budget", 64);
    handshake(&mut state);
    proof {
        law_transition_table(SessionPhaseTag::Established, SessionPhaseTag::DegradedOpen);
    }
    let r = state.enter_degraded(DegradedSeverity::PartialMacFailure, owned("mac_fail"), 3);
    assert(r is Ok);
    let limit: u64 = match state.degraded_policy {
        Some(p) => p.max_degraded_messages,
        None => 0,
    };
    let ghost ledger0 = state.replay_ledger;
    let mut k: u64 = 0;
    while k < limit
        invariant
            k <= limit,
            limit == 100,
            state.replay_ledger == ledger0,
            state.phase == SessionPhaseTag::DegradedOpen,
            state.degraded_messages == k,
            state.degraded_policy == Some(
                DegradedModePolicy::permissive_spec(DegradedSeverity::PartialMacFailure),
            ),
            state.transition_history@.len() == 3,
        decreases limit - k,
    {
        state.record_degraded_message();
        k = k + 1;
    }
    let exhausted = state.check_operation(DegradedOperationKind::ReadHostcall, 4).is_err();
    finish("degraded_budget_exhausted", HspSpecimenFamily::DegradedBudgetExhaustion, state, exhausted)
}

fn specimen_replay_detection() -> (r: HspSpecimen)
    ensures
        r.is_row(4),
{
    let mut state = fresh_state("spec-replay", 32);
    let mut seq: u64 = 1;
    while seq <= 10
        invariant
            1 <= seq <= 11,
            state.phase == SessionPhaseTag::Uninit,
            state.transition_history@.len() == 0,
            state.replay_ledger.width() == 32,
            state.replay_ledger.floor() == 0,
            state.replay_ledger.ceiling() == seq - 1,
            forall|x: u64| #[trigger] state.replay_ledger.holds(x) == (1 <= x < seq),
            state.replay_ledger.counters() == ((seq - 1) as u64, 0u64, 0u64, 0u64),
        decreases 11 - seq,
    {
        let r = state.check_replay(seq, seq * 10, None);
        assert(r is Ok);
        seq = seq + 1;
    }
    assert(state.replay_ledger.holds(5));
    let replay_err = state.check_replay(5, 110, None).is_err();
    finish("anti_replay_detection", HspSpecimenFamily::AntiReplay, state, replay_err)
}

fn specimen_replay_window() -> (r: HspSpecimen)
    ensures
        r.is_row(5),
{
    let mut state = fresh_state("spec-replay-window", 4);
    let mut seq: u64 = 1;
    while seq <= 20
        invariant
            1 <= seq <= 21,
            state.phase == SessionPhaseTag::Uninit,
            state.transition_history@.len() == 0,
            state.replay_ledger.width() == 4,
            state.replay_ledger.ceiling() == seq - 1,
            state.replay_ledger.floor() == if seq - 1 > 4 {
                seq - 1 - 4
            } else {
                0
            },
            forall|x: u64| #[trigger] state.replay_ledger.holds(x) ==> x < seq,
            state.replay_ledger.counters() == ((seq - 1) as u64, 0u64, 0u64, 0u64),
        decreases 21 - seq,
    {
        let _ = state.check_replay(seq, seq, None);
        seq = seq + 1;
    }
    let below_floor = state.check_replay(1, 21, None).is_err();
    finish("anti_replay_window_advance", HspSpecimenFamily::AntiReplay, state, below_floor)
}

fn specimen_epoch_mismatch() -> (r: HspSpecimen)
    ensures
        r.is_row(6),
{
    let mut state = fresh_state("spec-epoch", 64);
    let ks = full_schedule("spec-epoch", "epoch-test");
    let r = state.attach_key_schedule(ks);
    assert(r is Ok);
    let mismatch = state.validate_epoch(SecurityEpoch::from_raw(99)).is_err();
    finish("epoch_mismatch", HspSpecimenFamily::EpochMismatch, state, mismatch)
}

fn specimen_invalid_transition() -> (r: HspSpecimen)
    ensures
        r.is_row(7),
{
    let mut state = fresh_state("spec-invalid", 64);
    proof {
        law_transition_table(SessionPhaseTag::Uninit, SessionPhaseTag::Established);
    }
    let err = state.transition(SessionPhaseTag::Established, TransitionTrigger::HandshakeCompleted, 1).is_err();
    finish("invalid_transition", HspSpecimenFamily::InvalidTransition, state, err)
}

fn specimen_full_lifecycle() -> (r: HspSpecimen)
    ensures
        r.is_row(8),
{
    let mut state = fresh_state("spec-full", 64);
    handshake(&mut state);
    let ks = full_schedule("spec-full", "full-test");
    let r = state.attach_key_schedule(ks);
    assert(r is Ok);
    let r = state.check_replay(1, 10, None);
    assert(r is Ok);
    let r = state.check_replay(2, 20, None);
    assert(r is Ok);
    proof {
        law_transition_table(SessionPhaseTag::Established, SessionPhaseTag::DegradedOpen);
        law_transition_table(SessionPhaseTag::DegradedOpen, SessionPhaseTag::Established);
        law_transition_table(SessionPhaseTag::Established, SessionPhaseTag::Closing);
        law_transition_table(SessionPhaseTag::Closing, SessionPhaseTag::Closed);
    }
    let r = state.enter_degraded(DegradedSeverity::StaleKey, owned("rekey"), 30);
    assert(r is Ok);
    step(&mut state, SessionPhaseTag::Established, TransitionTrigger::DegradedRecovery, 40);
    step(&mut state, SessionPhaseTag::Closing, TransitionTrigger::CloseInitiated, 50);
    step(&mut state, SessionPhaseTag::Closed, TransitionTrigger::DrainCompleted, 60);
    finish("full_lifecycle", HspSpecimenFamily::FullLifecycle, state, true)
}

fn specimen_session_expiry() -> (r: HspSpecimen)
    ensures
        r.is_row(9),
{
    let mut state = fresh_state("spec-expiry", 64);
    handshake(&mut state);
    proof {
        law_transition_table(SessionPhaseTag::Established, SessionPhaseTag::Closed);
    }
    step(
        &mut state,
        SessionPhaseTag::Closed,
        TransitionTrigger::SessionExpired { reason: owned("ttl") },
        3,
    );
    finish("session_expiry", HspSpecimenFamily::HappyPath, state, true)
}

fn specimen_degraded_close() -> (r: HspSpecimen)
    ensures
        r.is_row(10),
{
    let mut state = fresh_state("spec-degraded-close", 64);
    handshake(&mut state);
    proof {
        law_transition_table(SessionPhaseTag::Established, SessionPhaseTag::DegradedOpen);
        law_transition_table(SessionPhaseTag::DegradedOpen, SessionPhaseTag::Closing);
        law_transition_table(SessionPhaseTag::Closing, SessionPhaseTag::Closed);
    }
    let r = state.enter_degraded(DegradedSeverity::IdentityCompromised, owned("compromised"), 3);
    assert(r is Ok);
    step(&mut state, SessionPhaseTag::Closing, TransitionTrigger::CloseInitiated, 4);
    step(&mut state, SessionPhaseTag::Closed, TransitionTrigger::DrainCompleted, 5);
    finish("degraded_close", HspSpecimenFamily::DegradedRecovery, state, true)
}

fn specimen_replay_breach() -> (r: HspSpecimen)
    ensures
        r.is_row(11),
{
    let mut state = fresh_state("spec-replay-breach", 64);
    handshake(&mut state);
    proof {
        law_transition_table(SessionPhaseTag::Established, SessionPhaseTag::Closed);
    }
    step(
        &mut state,
        SessionPhaseTag::Closed,
        TransitionTrigger::ReplayThresholdBreached { drop_count: 50, window_ticks: 100 },
        3,
    );
    finish("replay_threshold_breach", HspSpecimenFamily::AntiReplay, state, true)
}

/// Build the hostcall session protocol corpus: twelve scenarios covering
/// every specimen family, each ending as it is meant to.
pub fn hsp_corpus() -> (r: Vec<HspSpecimen>)
    ensures
        r@.len() == 12,
        forall|i: int| 0 <= i < 12 ==> (#[trigger] r@[i]).is_row(i),
{
    let mut corpus: Vec<HspSpecimen> = Vec::new();
    corpus.push(specimen_happy_path());
    corpus.push(specimen_handshake_rejected());
    corpus.push(specimen_degraded_recovery());
    corpus.push(specimen_degraded_budget());
    corpus.push(specimen_replay_detection());
    corpus.push(specimen_replay_window());
    corpus.push(specimen_epoch_mismatch());
    corpus.push(specimen_invalid_transition());
    corpus.push(specimen_full_lifecycle());
    corpus.push(specimen_session_expiry());
    corpus.push(specimen_degraded_close());
    corpus.push(specimen_replay_breach());
    corpus
}

// ---------------------------------------------------------------------------
// Runner
// ---------------------------------------------------------------------------

/// Result of running the corpus.
#[derive(Debug, Clone)]
pub struct HspRunnerResult {
    pub specimen_count: usize,
    /// Families present in the corpus, in declaration order.
    pub families_covered: Vec<HspSpecimenFamily>,
    pub all_clean: bool,
    /// Specimens ending in a terminal phase.
    pub terminal_count: usize,
    pub content_hash: ContentHash,
}

/// Concatenated hashes of the first `n` corpus specimens.
pub open spec fn corpus_hash_bytes(n: nat) -> Seq<u8>
    decreases n,
{
    if n == 0 {
        Seq::empty()
    } else {
        let row = corpus_row(n - 1);
        corpus_hash_bytes((n - 1) as nat) + sha256_digest(specimen_input(row.0, row.2, row.3))
    }
}

/// Number of the first `n` corpus rows that end closed.
pub open spec fn closed_rows(n: nat) -> nat
    decreases n,
{
    if n == 0 {
        0
    } else {
        closed_rows((n - 1) as nat) + if corpus_row(n - 1).2 == SessionPhaseTag::Closed {
            1nat
        } else {
            0nat
        }
    }
}

/// Run the corpus: every family is covered, every specimen completes
/// cleanly, and six specimens end closed.
pub fn run_hsp_corpus() -> (r: HspRunnerResult)
    ensures
        r.specimen_count == 12,
        forall|f: HspSpecimenFamily| r.families_covered@.contains(f),
        strictly_ranked(r.families_covered@),
        r.all_clean,
        r.terminal_count == 6,
        r.content_hash@ == sha256_digest(utf8("franken::hsp_runner::"@) + corpus_hash_bytes(12)),
{
    let corpus = hsp_corpus();
    let specimen_count = corpus.len();
    let mut families: EnumSet<HspSpecimenFamily> = EnumSet::new();
    let mut all_clean = true;
    let mut terminal_count: usize = 0;
    let mut pre: Vec<u8> = Vec::new();
    push_str(&mut pre, "franken::hsp_runner::");
    let ghost head = pre@;
    let mut i: usize = 0;
    while i < corpus.len()
        invariant
            i <= 12,
            corpus@.len() == 12,
            forall|k: int| 0 <= k < 12 ==> (#[trigger] corpus@[k]).is_row(k),
            forall|f: HspSpecimenFamily|
                #[trigger] families.has(f) == exists|j: int| 0 <= j < i && corpus_row(j).1 == f,
            all_clean,
            terminal_count == closed_rows(i as nat),
            terminal_count <= i,
            pre@ == head + corpus_hash_bytes(i as nat),
        decreases 12 - i,
    {
        let spec_i = &corpus[i];
        families.insert(spec_i.family);
        if !spec_i.clean_completion {
            all_clean = false;
        }
        if spec_i.final_state.phase.is_terminal() {
            terminal_count = terminal_count + 1;
        }
        push_bytes(&mut pre, spec_i.content_hash.as_bytes());
        proof {
            assert forall|f: HspSpecimenFamily|
                #[trigger] families.has(f) == exists|j: int| 0 <= j < i + 1 && corpus_row(j).1 == f by {
                if f == corpus_row(i as int).1 {
                    assert(corpus_row(i as int).1 == f);
                }
            }
        }
        i = i + 1;
    }
    proof {
        reveal_with_fuel(closed_rows, 13);
        assert forall|f: HspSpecimenFamily| #[trigger] families.has(f) by {
            match f {
                HspSpecimenFamily::HappyPath => assert(corpus_row(0).1 == f),
                HspSpecimenFamily::HandshakeRejection => assert(corpus_row(1).1 == f),
                HspSpecimenFamily::DegradedRecovery => assert(corpus_row(2).1 == f),
                HspSpecimenFamily::DegradedBudgetExhaustion => assert(corpus_row(3).1 == f),
                HspSpecimenFamily::AntiReplay => assert(corpus_row(4).1 == f),
                HspSpecimenFamily::EpochMismatch => assert(corpus_row(6).1 == f),
                HspSpecimenFamily::InvalidTransition => assert(corpus_row(7).1 == f),
                HspSpecimenFamily::FullLifecycle => assert(corpus_row(8).1 == f),
            }
        }
        families.lemma_members();
        assert forall|f: HspSpecimenFamily| families.members().contains(f) by {
            assert(families.has(f));
        }
    }
    HspRunnerResult {
        specimen_count,
        families_covered: families.to_vec(),
        all_clean,
        terminal_count,
        content_hash: ContentHash::compute(pre.as_slice()),
    }
}

// ---------------------------------------------------------------------------
// Laws
// ---------------------------------------------------------------------------

/// What the ledger's invariant guarantees to callers (see `lemma_wf`).
pub open spec fn ledger_valid(l: AntiReplayLedger) -> bool {
    &&& l.audit().len() <= l.audit_bound()
    &&& l.size() == window_held(l)
    &&& l.width() >= 1
    &&& l.floor() <= l.ceiling()
    &&& (l.ceiling() > l.width() ==> l.floor() >= l.ceiling() - l.width())
    &&& forall|x: u64| #[trigger] l.holds(x) ==> l.floor() <= x <= l.ceiling()
}

/// Once a sequence is in the window or below its floor, it stays so, and
/// it is never accepted again: a recorded decision can only keep it held or
/// move the floor past it.
pub proof fn law_no_double_accept(
    l: AntiReplayLedger,
    next: AntiReplayLedger,
    sequence: u64,
    tick: u64,
    envelope_hash: Option<ContentHash>,
    v: ReplayVerdict,
    s: u64,
)
    requires
        l.recorded(next, sequence, tick, envelope_hash, v),
        l.holds(s) || s < l.floor(),
    ensures
        next.holds(s) || s < next.floor(),
        next.verdict_for(s) != ReplayVerdict::Accept,
        next.floor() >= l.floor(),
{
}

/// An accepted sequence is remembered: checking it again right away is a
/// replay.
pub proof fn law_accepted_is_remembered(
    l: AntiReplayLedger,
    next: AntiReplayLedger,
    sequence: u64,
    tick: u64,
    envelope_hash: Option<ContentHash>,
)
    requires
        ledger_valid(l),
        l.recorded(next, sequence, tick, envelope_hash, ReplayVerdict::Accept),
    ensures
        next.holds(sequence),
        next.verdict_for(sequence) == ReplayVerdict::Replay,
{
    if sequence > l.ceiling() {
        assert(sequence >= next.floor());
    } else {
        assert(next.floor() == l.floor());
    }
}

/// Every recorded decision counts exactly once, the audit trail stays
/// within its bound and ends with the new decision (when the bound admits
/// any entry), and the window stays well formed: floor at most ceiling,
/// at most the width apart, every accepted sequence between them, and at
/// most the width plus one of them held.  Every ledger is valid
/// (`check_and_record` ensures it before and after each call).
pub proof fn law_ledger_accounting(
    l: AntiReplayLedger,
    next: AntiReplayLedger,
    sequence: u64,
    tick: u64,
    envelope_hash: Option<ContentHash>,
    v: ReplayVerdict,
)
    requires
        ledger_valid(l),
        l.can_record(sequence),
        l.recorded(next, sequence, tick, envelope_hash, v),
    ensures
        next.counters().0 + next.counters().1 + next.counters().2 + next.counters().3 == l.counters().0
            + l.counters().1 + l.counters().2 + l.counters().3 + 1,
        next.audit().len() <= next.audit_bound(),
        l.audit_bound() >= 1 ==> next.audit().len() >= 1 && next.audit().last() == (ReplayAuditEntry {
            sequence,
            verdict: v,
            checked_at_tick: tick,
            envelope_hash,
        }),
        ledger_valid(next),
        next.size() <= next.width() + 1,
{
    lemma_held_in_le(next, next.floor() as int, (next.ceiling() - next.floor() + 1) as nat);
    let entry = ReplayAuditEntry { sequence, verdict: v, checked_at_tick: tick, envelope_hash };
    let trail = l.audit().push(entry);
    if trail.len() > l.audit_bound() && l.audit_bound() >= 1 {
        assert(trail.drop_first().last() == trail.last());
    }
    if v == ReplayVerdict::Accept {
        assert forall|x: u64| #[trigger] next.holds(x) implies next.floor() <= x <= next.ceiling() by {
            if l.holds(x) {
                assert(x <= l.ceiling());
            }
        }
    } else {
        assert forall|x: u64| #[trigger] next.holds(x) implies next.floor() <= x <= next.ceiling() by {
            assert(l.holds(x));
        }
    }
}

/// Only `Established` and `DegradedOpen` admit operations; in degraded mode
/// closing is always admitted, and an identity-compromised session admits
/// nothing else.
pub proof fn law_operation_gating(s: SessionProtocolState, op: DegradedOperationKind, tick: u64)
    ensures
        s.operation_result(op, tick) is Ok ==> s.phase.permits_data_spec(),
        s.phase == SessionPhaseTag::Established ==> s.operation_result(op, tick) is Ok,
        s.phase == SessionPhaseTag::DegradedOpen && op == DegradedOperationKind::Close
            ==> s.operation_result(op, tick) is Ok,
        s.phase == SessionPhaseTag::DegradedOpen && s.degraded_policy == Some(
            DegradedModePolicy::for_severity_spec(DegradedSeverity::IdentityCompromised),
        ) && op != DegradedOperationKind::Close ==> s.operation_result(op, tick) is Err,
{
}

/// How strict the default degraded-mode policy is, by severity: a stale
/// key still admits reads and writes, a partial MAC failure admits reads
/// but blocks writes, and a compromised identity blocks all data; no
/// default admits lifecycle operations; and a more severe failure never
/// admits an operation, or grants a message or tick budget, that a milder
/// one does not.
pub proof fn law_default_policy_strictness(op: DegradedOperationKind)
    ensures
        DegradedModePolicy::for_severity_spec(DegradedSeverity::StaleKey).allows(DegradedOperationKind::ReadHostcall),
        DegradedModePolicy::for_severity_spec(DegradedSeverity::StaleKey).allows(DegradedOperationKind::WriteHostcall),
        DegradedModePolicy::for_severity_spec(DegradedSeverity::PartialMacFailure).allows(
            DegradedOperationKind::ReadHostcall,
        ),
        !DegradedModePolicy::for_severity_spec(DegradedSeverity::PartialMacFailure).allows(
            DegradedOperationKind::WriteHostcall,
        ),
        !DegradedModePolicy::for_severity_spec(DegradedSeverity::IdentityCompromised).allows(
            DegradedOperationKind::ReadHostcall,
        ),
        !DegradedModePolicy::for_severity_spec(DegradedSeverity::IdentityCompromised).allows(
            DegradedOperationKind::WriteHostcall,
        ),
        DegradedModePolicy::for_severity_spec(DegradedSeverity::PartialMacFailure).max_degraded_messages > 0,
        DegradedModePolicy::for_severity_spec(DegradedSeverity::PartialMacFailure).max_degraded_ticks > 0,
        DegradedModePolicy::for_severity_spec(DegradedSeverity::IdentityCompromised).allows(op)
            ==> DegradedModePolicy::for_severity_spec(DegradedSeverity::PartialMacFailure).allows(op),
        DegradedModePolicy::for_severity_spec(DegradedSeverity::PartialMacFailure).allows(op)
            ==> DegradedModePolicy::for_severity_spec(DegradedSeverity::StaleKey).allows(op),
        DegradedModePolicy::for_severity_spec(DegradedSeverity::IdentityCompromised).max_degraded_messages
            <= DegradedModePolicy::for_severity_spec(DegradedSeverity::PartialMacFailure).max_degraded_messages
            <= DegradedModePolicy::for_severity_spec(DegradedSeverity::StaleKey).max_degraded_messages,
        DegradedModePolicy::for_severity_spec(DegradedSeverity::IdentityCompromised).max_degraded_ticks
            <= DegradedModePolicy::for_severity_spec(DegradedSeverity::PartialMacFailure).max_degraded_ticks
            <= DegradedModePolicy::for_severity_spec(DegradedSeverity::StaleKey).max_degraded_ticks,
        forall|sev: DegradedSeverity| !#[trigger] DegradedModePolicy::for_severity_spec(sev).allows(
            DegradedOperationKind::LifecycleOperation,
        ),
        forall|sev: DegradedSeverity| #[trigger] DegradedModePolicy::for_severity_spec(sev).severity == sev,
{
}

/// A session degraded under the default policy of its severity admits
/// whatever that policy allows while the message and tick budgets last:
/// with messages left and within the tick budget since entering, an
/// operation the policy allows is admitted and one it blocks is refused.
/// In particular, after a partial MAC failure reads still go through and
/// writes do not.
pub proof fn law_degraded_admits_allowed(
    s: SessionProtocolState,
    sev: DegradedSeverity,
    op: DegradedOperationKind,
    tick: u64,
    entered: u64,
)
    requires
        s.phase == SessionPhaseTag::DegradedOpen,
        s.degraded_policy == Some(DegradedModePolicy::for_severity_spec(sev)),
        s.degraded_messages < DegradedModePolicy::for_severity_spec(sev).max_degraded_messages,
        s.degraded_entered_tick == Some(entered),
        sat_sub(tick, entered) <= DegradedModePolicy::for_severity_spec(sev).max_degraded_ticks,
    ensures
        (s.operation_result(op, tick) is Ok) <==> DegradedModePolicy::for_severity_spec(sev).allows(op),
        sev == DegradedSeverity::PartialMacFailure ==> s.operation_result(DegradedOperationKind::ReadHostcall, tick) is Ok
            && s.operation_result(DegradedOperationKind::WriteHostcall, tick) is Err,
{
}

/// A refused transition leaves the session untouched, and a closed session
/// refuses every transition.
pub proof fn law_closed_is_terminal(s: SessionProtocolState, to: SessionPhaseTag)
    requires
        s.phase == SessionPhaseTag::Closed,
    ensures
        !valid_edge(s.phase, to),
{
}

} // verus!
