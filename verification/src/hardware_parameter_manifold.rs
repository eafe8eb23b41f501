//! Hardware parameter manifold.
//!
//! Describes hardware configurations as points on calibrated axes, groups
//! configurations into symmetry classes, and tracks the proof/measurement
//! obligations (fingerprint × question) that remain, discharging them by
//! symmetry transport from a class representative where possible.
//! Values are fixed-point millionths (1_000_000 = 1.0).

use crate::foundation::{
    abs_diff, decimal, owned, push_bytes, push_str, push_u64_le, ratio, ratio_millionths,
    sat_mul_spec, sha256_digest, u64_le, u64_to_decimal, utf8, ContentHash, SecurityEpoch,
};
use crate::strmap::{str_eq, StrMap, StrSet};
use crate::text::{debug_quoted, join_with, str_debug};
use vstd::prelude::*;

verus! {

/// Schema version for hardware manifold artifacts.
pub const SCHEMA_VERSION: &'static str = "franken-engine.hardware-parameter-manifold.v1";

/// Component name for evidence linkage.
pub const COMPONENT: &'static str = "hardware_parameter_manifold";

/// Bead reference.
pub const BEAD_ID: &'static str = "bd-1lsy.7.16.1";

/// Policy reference.
pub const POLICY_ID: &'static str = "RGC-616A";

/// Fixed-point unit: 1.0 = 1_000_000.
pub const MILLION: u64 = 1_000_000;

/// Maximum number of axes in the hardware manifold.
pub const MAX_HARDWARE_AXES: usize = 32;

/// Maximum number of members in a single symmetry class.
pub const MAX_CLASS_SIZE: usize = 128;

/// Default similarity threshold for symmetry class membership (millionths).
pub const DEFAULT_SIMILARITY_THRESHOLD: u64 = 50_000;

/// SHA-256 applied twice, as every content hash of this module is formed.
pub open spec fn double_sha(data: Seq<u8>) -> Seq<u8> {
    sha256_digest(sha256_digest(data))
}

fn double_hash(buf: &Vec<u8>) -> (r: ContentHash)
    ensures
        r@ == double_sha(buf@),
{
    let d = ContentHash::compute(buf.as_slice());
    ContentHash::compute(d.as_bytes())
}

// ---------------------------------------------------------------------------
// HardwareAxisDomain
// ---------------------------------------------------------------------------

/// Domain classification for hardware axes.
#[derive(Debug, Clone, Copy, PartialEq, Eq, PartialOrd, Ord, Hash, Structural)]
pub enum HardwareAxisDomain {
    Microarch,
    Memory,
    Simd,
    Io,
    Platform,
}

impl HardwareAxisDomain {
    /// All domains.
    pub const ALL: [HardwareAxisDomain; 5] = [
        HardwareAxisDomain::Microarch,
        HardwareAxisDomain::Memory,
        HardwareAxisDomain::Simd,
        HardwareAxisDomain::Io,
        HardwareAxisDomain::Platform,
    ];

    /// Stable name.
    pub open spec fn name(self) -> Seq<char> {
        match self {
            HardwareAxisDomain::Microarch => "microarch"@,
            HardwareAxisDomain::Memory => "memory"@,
            HardwareAxisDomain::Simd => "simd"@,
            HardwareAxisDomain::Io => "io"@,
            HardwareAxisDomain::Platform => "platform"@,
        }
    }

    /// Stable name.
    pub fn as_str(self) -> (r: &'static str)
        ensures
            r@ == self.name(),
    {
        match self {
            HardwareAxisDomain::Microarch => "microarch",
            HardwareAxisDomain::Memory => "memory",
            HardwareAxisDomain::Simd => "simd",
            HardwareAxisDomain::Io => "io",
            HardwareAxisDomain::Platform => "platform",
        }
    }

    /// Display rendering (the stable name).
    pub fn to_string(&self) -> (r: String)
        ensures
            r@ == self.name(),
    {
        owned(self.as_str())
    }
}

// ---------------------------------------------------------------------------
// HardwareAxis
// ---------------------------------------------------------------------------

/// A single axis in the hardware parameter manifold.
#[derive(Debug, PartialEq, Eq, PartialOrd, Ord)]
pub struct HardwareAxis {
    /// Stable string key for this axis (e.g. "core_count").
    pub key: String,
    pub domain: HardwareAxisDomain,
    /// Minimum calibrated value (millionths).
    pub min_millionths: u64,
    /// Maximum calibrated value (millionths).
    pub max_millionths: u64,
    /// Whether this axis is required for any hardware fingerprint.
    pub required: bool,
    pub description: String,
}

impl Clone for HardwareAxis {
    fn clone(&self) -> (r: Self)
        ensures
            r == *self,
    {
        HardwareAxis {
            key: self.key.clone(),
            domain: self.domain,
            min_millionths: self.min_millionths,
            max_millionths: self.max_millionths,
            required: self.required,
            description: self.description.clone(),
        }
    }
}

/// `max - min`, or zero when `max < min`.
pub open spec fn span_of(a: HardwareAxis) -> u64 {
    if a.max_millionths >= a.min_millionths {
        (a.max_millionths - a.min_millionths) as u64
    } else {
        0
    }
}

/// Position of `v` within the calibrated range, in millionths; `None` for an
/// empty range.
pub open spec fn normalized(a: HardwareAxis, v: u64) -> Option<u64> {
    let span = span_of(a);
    if span == 0 {
        None
    } else {
        let lo = if v >= a.min_millionths {
            v
        } else {
            a.min_millionths
        };
        let clamped = if lo <= a.max_millionths {
            lo
        } else {
            a.max_millionths
        };
        Some(ratio_millionths((clamped - a.min_millionths) as u64, span))
    }
}

impl HardwareAxis {
    /// Create a new hardware axis.
    pub fn new(
        key: &str,
        domain: HardwareAxisDomain,
        min_millionths: u64,
        max_millionths: u64,
        required: bool,
        description: &str,
    ) -> (r: Self)
        ensures
            r.key@ == key@,
            r.domain == domain,
            r.min_millionths == min_millionths,
            r.max_millionths == max_millionths,
            r.required == required,
            r.description@ == description@,
    {
        HardwareAxis {
            key: owned(key),
            domain,
            min_millionths,
            max_millionths,
            required,
            description: owned(description),
        }
    }

    /// Range span in millionths.
    pub fn range_span(&self) -> (r: u64)
        ensures
            r == span_of(*self),
    {
        self.max_millionths.saturating_sub(self.min_millionths)
    }

    /// Normalize a raw value to [0, MILLION] within the calibrated range;
    /// `None` if the range is empty.
    pub fn normalize(&self, value_millionths: u64) -> (r: Option<u64>)
        ensures
            r == normalized(*self, value_millionths),
    {
        let span = self.range_span();
        if span == 0 {
            return None;
        }
        let lo = if value_millionths >= self.min_millionths {
            value_millionths
        } else {
            self.min_millionths
        };
        let clamped = if lo <= self.max_millionths {
            lo
        } else {
            self.max_millionths
        };
        Some(ratio(clamped - self.min_millionths, span))
    }

    /// Bytes hashed to identify the axis.
    pub open spec fn hash_input(self) -> Seq<u8> {
        utf8(self.key@) + utf8(self.domain.name()) + u64_le(self.min_millionths) + u64_le(
            self.max_millionths,
        ) + seq![if self.required {
            1u8
        } else {
            0u8
        }]
    }

    /// Content hash for this axis definition.
    pub fn content_hash(&self) -> (r: ContentHash)
        ensures
            r@ == double_sha(self.hash_input()),
    {
        let mut buf: Vec<u8> = Vec::new();
        push_str(&mut buf, self.key.as_str());
        push_str(&mut buf, self.domain.as_str());
        push_u64_le(&mut buf, self.min_millionths);
        push_u64_le(&mut buf, self.max_millionths);
        buf.push(
            if self.required {
                1
            } else {
                0
            },
        );
        assert(buf@ =~= self.hash_input());
        double_hash(&buf)
    }
}

// ---------------------------------------------------------------------------
// HardwareFingerprint
// ---------------------------------------------------------------------------

/// Keys and little-endian values of a value map, in key order.
pub open spec fn values_bytes(es: Seq<(String, u64)>) -> Seq<u8>
    decreases es.len(),
{
    if es.len() == 0 {
        Seq::empty()
    } else {
        values_bytes(es.drop_last()) + utf8(es.last().0@) + u64_le(es.last().1)
    }
}

/// A concrete hardware configuration expressed as axis values.
#[derive(Debug, Clone, PartialEq, Eq)]
pub struct HardwareFingerprint {
    pub id: String,
    pub label: String,
    /// Axis key → observed value in millionths.
    pub values: StrMap<u64>,
    pub content_hash: ContentHash,
}

impl HardwareFingerprint {
    /// Create a new fingerprint with computed content hash.
    pub fn new(id: &str, label: &str, values: StrMap<u64>) -> (r: Self)
        ensures
            r.id@ == id@,
            r.label@ == label@,
            r.values == values,
            r.content_hash@ == double_sha(utf8(id@) + utf8(label@) + values_bytes(values.entries())),
    {
        let mut buf: Vec<u8> = Vec::new();
        push_str(&mut buf, id);
        push_str(&mut buf, label);
        let es = values.as_slice();
        let ghost start = buf@;
        let mut i: usize = 0;
        while i < es.len()
            invariant
                i <= es@.len(),
                es@ == values.entries(),
                buf@ == start + values_bytes(es@.take(i as int)),
            decreases es@.len() - i,
        {
            push_str(&mut buf, es[i].0.as_str());
            push_u64_le(&mut buf, es[i].1);
            i = i + 1;
            assert(es@.take(i as int).drop_last() =~= es@.take(i - 1));
        }
        assert(es@.take(i as int) =~= es@);
        let content_hash = double_hash(&buf);
        HardwareFingerprint { id: owned(id), label: owned(label), values, content_hash }
    }

    /// Get a value for an axis key.
    pub fn get(&self, key: &str) -> (r: Option<u64>)
        ensures
            r == self.values.lookup(key@),
    {
        match self.values.get(key) {
            Some(v) => Some(*v),
            None => None,
        }
    }

    /// Number of axes with values.
    pub fn axis_count(&self) -> (r: usize)
        ensures
            r == self.values.entries().len(),
    {
        self.values.len()
    }
}

// ---------------------------------------------------------------------------
// SymmetryReason / SymmetryRefusal
// ---------------------------------------------------------------------------

/// Justification for why two hardware configurations are symmetric.
#[derive(Debug, Clone, PartialEq, Eq, PartialOrd, Ord)]
pub enum SymmetryReason {
    WithinThreshold { max_distance_millionths: u64, threshold_millionths: u64 },
    ExpertAnnotation { note: String },
    EmpiricallyVerified { measurement_hash: ContentHash },
}

impl SymmetryReason {
    /// Stable tag of the variant.
    pub open spec fn tag_text(self) -> Seq<char> {
        match self {
            SymmetryReason::WithinThreshold { .. } => "within_threshold"@,
            SymmetryReason::ExpertAnnotation { .. } => "expert_annotation"@,
            SymmetryReason::EmpiricallyVerified { .. } => "empirically_verified"@,
        }
    }

    /// Stable tag of the variant.
    pub fn tag(&self) -> (r: &'static str)
        ensures
            r@ == self.tag_text(),
    {
        match self {
            SymmetryReason::WithinThreshold { .. } => "within_threshold",
            SymmetryReason::ExpertAnnotation { .. } => "expert_annotation",
            SymmetryReason::EmpiricallyVerified { .. } => "empirically_verified",
        }
    }

    /// Display text.
    pub open spec fn text(self) -> Seq<char> {
        match self {
            SymmetryReason::WithinThreshold { max_distance_millionths, threshold_millionths } =>
                "within threshold: distance "@ + decimal(max_distance_millionths as nat) + " ≤ "@
                + decimal(threshold_millionths as nat),
            SymmetryReason::ExpertAnnotation { note } => "expert: "@ + note@,
            SymmetryReason::EmpiricallyVerified { .. } => "empirically verified"@,
        }
    }

    /// Display rendering.
    pub fn to_string(&self) -> (r: String)
        ensures
            r@ == self.text(),
    {
        match self {
            SymmetryReason::WithinThreshold { max_distance_millionths, threshold_millionths } => {
                let mut s = owned("within threshold: distance ");
                s.append(u64_to_decimal(*max_distance_millionths).as_str());
                s.append(" ≤ ");
                s.append(u64_to_decimal(*threshold_millionths).as_str());
                s
            },
            SymmetryReason::ExpertAnnotation { note } => {
                let mut s = owned("expert: ");
                s.append(note.as_str());
                s
            },
            SymmetryReason::EmpiricallyVerified { .. } => owned("empirically verified"),
        }
    }
}

/// Rendered members joined by `", "` inside braces: `{a, b}`.
pub open spec fn braced(parts: Seq<Seq<char>>) -> Seq<char> {
    "{"@ + join_with(parts, ", "@) + "}"@
}

/// How a set of strings prints with `{:?}`: each member in order, rendered
/// by `str_debug`, inside braces.
pub open spec fn debug_set(ms: Seq<Seq<char>>) -> Seq<char> {
    braced(ms.map_values(|m: Seq<char>| str_debug(m)))
}

/// Join already rendered members with `", "` inside braces.
pub fn braced_list(parts: &[String]) -> (r: String)
    ensures
        r@ == braced(parts@.map_values(|x: String| x@)),
{
    let ghost ps = parts@.map_values(|x: String| x@);
    let mut out = owned("{");
    let mut i: usize = 0;
    while i < parts.len()
        invariant
            i <= parts@.len(),
            ps == parts@.map_values(|x: String| x@),
            out@ == "{"@ + join_with(ps.take(i as int), ", "@),
        decreases parts@.len() - i,
    {
        if i > 0 {
            out.append(", ");
        }
        out.append(parts[i].as_str());
        i = i + 1;
        assert(ps.take(i as int).drop_last() =~= ps.take(i - 1));
        assert(ps.take(i as int).last() == ps[i - 1]);
        assert(i == 1 ==> ps.take(i as int) =~= seq![ps[0]]);
    }
    assert(ps.take(i as int) =~= ps);
    out.append("}");
    out
}

fn render_set(s: &StrSet) -> (r: String)
    ensures
        r@ == debug_set(s.members()),
{
    let v = s.to_vec();
    let ghost ms = s.members();
    let mut parts: Vec<String> = Vec::new();
    let mut i: usize = 0;
    while i < v.len()
        invariant
            i <= v@.len(),
            v@.len() == ms.len(),
            forall|j: int| 0 <= j < v@.len() ==> (#[trigger] v@[j])@ == ms[j],
            parts@.len() == i,
            forall|j: int| 0 <= j < i ==> (#[trigger] parts@[j])@ == str_debug(ms[j]),
        decreases v@.len() - i,
    {
        parts.push(debug_quoted(v[i].as_str()));
        i = i + 1;
    }
    let r = braced_list(parts.as_slice());
    assert(parts@.map_values(|x: String| x@) =~= ms.map_values(|m: Seq<char>| str_debug(m)));
    r
}

/// Reason why two hardware configurations cannot be grouped.
#[derive(Debug, Clone, PartialEq, Eq)]
pub enum SymmetryRefusal {
    ExceedsThreshold { axis_key: String, distance_millionths: u64, threshold_millionths: u64 },
    IncomparableAxes { missing_keys: StrSet },
    SimdMismatch { left_level: String, right_level: String },
    PlatformMismatch { detail: String },
}

impl SymmetryRefusal {
    /// Stable tag of the variant.
    pub open spec fn tag_text(self) -> Seq<char> {
        match self {
            SymmetryRefusal::ExceedsThreshold { .. } => "exceeds_threshold"@,
            SymmetryRefusal::IncomparableAxes { .. } => "incomparable_axes"@,
            SymmetryRefusal::SimdMismatch { .. } => "simd_mismatch"@,
            SymmetryRefusal::PlatformMismatch { .. } => "platform_mismatch"@,
        }
    }

    /// Stable tag of the variant.
    pub fn tag(&self) -> (r: &'static str)
        ensures
            r@ == self.tag_text(),
    {
        match self {
            SymmetryRefusal::ExceedsThreshold { .. } => "exceeds_threshold",
            SymmetryRefusal::IncomparableAxes { .. } => "incomparable_axes",
            SymmetryRefusal::SimdMismatch { .. } => "simd_mismatch",
            SymmetryRefusal::PlatformMismatch { .. } => "platform_mismatch",
        }
    }

    /// Display text.
    pub open spec fn text(self) -> Seq<char> {
        match self {
            SymmetryRefusal::ExceedsThreshold {
                axis_key,
                distance_millionths,
                threshold_millionths,
            } => "axis '"@ + axis_key@ + "' distance "@ + decimal(distance_millionths as nat)
                + " > threshold "@ + decimal(threshold_millionths as nat),
            SymmetryRefusal::IncomparableAxes { missing_keys } => "missing axes: "@ + debug_set(missing_keys.members()),
            SymmetryRefusal::SimdMismatch { left_level, right_level } => "SIMD mismatch: "@
                + left_level@ + " vs "@ + right_level@,
            SymmetryRefusal::PlatformMismatch { detail } => "platform mismatch: "@ + detail@,
        }
    }

    /// Display rendering.
    pub fn to_string(&self) -> (r: String)
        ensures
            r@ == self.text(),
    {
        match self {
            SymmetryRefusal::ExceedsThreshold {
                axis_key,
                distance_millionths,
                threshold_millionths,
            } => {
                let mut s = owned("axis '");
                s.append(axis_key.as_str());
                s.append("' distance ");
                s.append(u64_to_decimal(*distance_millionths).as_str());
                s.append(" > threshold ");
                s.append(u64_to_decimal(*threshold_millionths).as_str());
                s
            },
            SymmetryRefusal::IncomparableAxes { missing_keys } => {
                let mut s = owned("missing axes: ");
                s.append(render_set(missing_keys).as_str());
                s
            },
            SymmetryRefusal::SimdMismatch { left_level, right_level } => {
                let mut s = owned("SIMD mismatch: ");
                s.append(left_level.as_str());
                s.append(" vs ");
                s.append(right_level.as_str());
                s
            },
            SymmetryRefusal::PlatformMismatch { detail } => {
                let mut s = owned("platform mismatch: ");
                s.append(detail.as_str());
                s
            },
        }
    }
}

// ---------------------------------------------------------------------------
// SymmetryClass
// ---------------------------------------------------------------------------

/// Concatenated UTF-8 of a sequence of strings.
pub open spec fn concat_utf8(ms: Seq<Seq<char>>) -> Seq<u8>
    decreases ms.len(),
{
    if ms.len() == 0 {
        Seq::empty()
    } else {
        concat_utf8(ms.drop_last()) + utf8(ms.last())
    }
}

fn push_set(buf: &mut Vec<u8>, s: &StrSet)
    ensures
        final(buf)@ == old(buf)@ + concat_utf8(s.members()),
{
    let v = s.to_vec();
    let ghost ms = s.members();
    let ghost start = buf@;
    let mut i: usize = 0;
    while i < v.len()
        invariant
            i <= v@.len(),
            v@.len() == ms.len(),
            forall|j: int| 0 <= j < v@.len() ==> (#[trigger] v@[j])@ == ms[j],
            buf@ == start + concat_utf8(ms.take(i as int)),
        decreases v@.len() - i,
    {
        push_str(buf, v[i].as_str());
        i = i + 1;
        assert(ms.take(i as int).drop_last() =~= ms.take(i - 1));
    }
    assert(ms.take(i as int) =~= ms);
}

/// A group of hardware fingerprints that behave alike for some questions.
#[derive(Debug, Clone, PartialEq, Eq)]
pub struct SymmetryClass {
    pub class_id: String,
    /// Representative fingerprint ID (the "canonical" member).
    pub representative_id: String,
    /// All member fingerprint IDs (including the representative).
    pub member_ids: StrSet,
    /// Axes that are invariant within this class.
    pub invariant_axes: StrSet,
    pub reason: SymmetryReason,
    pub content_hash: ContentHash,
}

impl SymmetryClass {
    /// Create a new symmetry class.
    pub fn new(
        class_id: &str,
        representative_id: &str,
        member_ids: StrSet,
        invariant_axes: StrSet,
        reason: SymmetryReason,
    ) -> (r: Self)
        ensures
            r.class_id@ == class_id@,
            r.representative_id@ == representative_id@,
            r.member_ids == member_ids,
            r.invariant_axes == invariant_axes,
            r.reason == reason,
            r.content_hash@ == double_sha(
                utf8(class_id@) + utf8(representative_id@) + concat_utf8(member_ids.members())
                    + concat_utf8(invariant_axes.members()) + utf8(reason.tag_text()),
            ),
    {
        let mut buf: Vec<u8> = Vec::new();
        push_str(&mut buf, class_id);
        push_str(&mut buf, representative_id);
        push_set(&mut buf, &member_ids);
        push_set(&mut buf, &invariant_axes);
        push_str(&mut buf, reason.tag());
        let content_hash = double_hash(&buf);
        SymmetryClass {
            class_id: owned(class_id),
            representative_id: owned(representative_id),
            member_ids,
            invariant_axes,
            reason,
            content_hash,
        }
    }

    /// Number of members in this class.
    pub fn size(&self) -> (r: usize)
        ensures
            r == self.member_ids.members().len(),
    {
        self.member_ids.len()
    }

    /// Whether a fingerprint ID is a member of this class.
    pub fn contains(&self, fingerprint_id: &str) -> (r: bool)
        ensures
            r == self.member_ids.has(fingerprint_id@),
    {
        self.member_ids.contains(fingerprint_id)
    }

    /// Whether this class is trivial (at most one member).
    pub fn is_trivial(&self) -> (r: bool)
        ensures
            r == (self.member_ids.members().len() <= 1),
    {
        self.member_ids.len() <= 1
    }
}

// ---------------------------------------------------------------------------
// ObligationStatus
// ---------------------------------------------------------------------------

/// Status of a proof/measurement obligation.
#[derive(Debug, Clone, Copy, PartialEq, Eq, PartialOrd, Ord, Structural)]
pub enum ObligationStatus {
    Pending,
    DischargedDirect,
    DischargedByTransport,
    Infeasible,
    Waived,
}

impl ObligationStatus {
    /// All statuses.
    pub const ALL: [ObligationStatus; 5] = [
        ObligationStatus::Pending,
        ObligationStatus::DischargedDirect,
        ObligationStatus::DischargedByTransport,
        ObligationStatus::Infeasible,
        ObligationStatus::Waived,
    ];

    /// Stable name.
    pub open spec fn name(self) -> Seq<char> {
        match self {
            ObligationStatus::Pending => "pending"@,
            ObligationStatus::DischargedDirect => "discharged_direct"@,
            ObligationStatus::DischargedByTransport => "discharged_by_transport"@,
            ObligationStatus::Infeasible => "infeasible"@,
            ObligationStatus::Waived => "waived"@,
        }
    }

    /// Stable name.
    pub fn as_str(self) -> (r: &'static str)
        ensures
            r@ == self.name(),
    {
        match self {
            ObligationStatus::Pending => "pending",
            ObligationStatus::DischargedDirect => "discharged_direct",
            ObligationStatus::DischargedByTransport => "discharged_by_transport",
            ObligationStatus::Infeasible => "infeasible",
            ObligationStatus::Waived => "waived",
        }
    }

    /// Whether this obligation is resolved (not pending).
    pub open spec fn resolved(self) -> bool {
        self != ObligationStatus::Pending
    }

    /// Whether this was discharged (direct or transport).
    pub open spec fn discharged(self) -> bool {
        self == ObligationStatus::DischargedDirect || self == ObligationStatus::DischargedByTransport
    }

    /// Whether this obligation is resolved (not pending).
    pub fn is_resolved(self) -> (r: bool)
        ensures
            r == self.resolved(),
    {
        match self {
            ObligationStatus::Pending => false,
            _ => true,
        }
    }

    /// Whether this was discharged (direct or transport).
    pub fn is_discharged(self) -> (r: bool)
        ensures
            r == self.discharged(),
    {
        match self {
            ObligationStatus::DischargedDirect | ObligationStatus::DischargedByTransport => true,
            _ => false,
        }
    }

    /// Display rendering (the stable name).
    pub fn to_string(&self) -> (r: String)
        ensures
            r@ == self.name(),
    {
        owned(self.as_str())
    }
}

// ---------------------------------------------------------------------------
// OptimizationQuestion / Obligation
// ---------------------------------------------------------------------------

/// An optimization question that requires hardware-specific evidence.
#[derive(Debug, Clone, PartialEq, Eq)]
pub struct OptimizationQuestion {
    pub question_id: String,
    pub description: String,
    /// Which hardware axes matter for this question.
    pub relevant_axes: StrSet,
}

impl OptimizationQuestion {
    /// Create a question.
    pub fn new(question_id: &str, description: &str, relevant_axes: StrSet) -> (r: Self)
        ensures
            r.question_id@ == question_id@,
            r.description@ == description@,
            r.relevant_axes == relevant_axes,
    {
        OptimizationQuestion {
            question_id: owned(question_id),
            description: owned(description),
            relevant_axes,
        }
    }
}

/// A single proof/measurement obligation: (hardware config, question).
#[derive(Debug, PartialEq, Eq, PartialOrd, Ord)]
pub struct Obligation {
    pub fingerprint_id: String,
    pub question_id: String,
    pub status: ObligationStatus,
    /// If discharged by transport, the source fingerprint ID.
    pub transport_source: Option<String>,
    /// If discharged by transport, the symmetry class ID.
    pub transport_class_id: Option<String>,
}

fn clone_opt(o: &Option<String>) -> (r: Option<String>)
    ensures
        r == *o,
{
    match o {
        Some(s) => Some(s.clone()),
        None => None,
    }
}

impl Clone for Obligation {
    fn clone(&self) -> (r: Self)
        ensures
            r == *self,
    {
        Obligation {
            fingerprint_id: self.fingerprint_id.clone(),
            question_id: self.question_id.clone(),
            status: self.status,
            transport_source: clone_opt(&self.transport_source),
            transport_class_id: clone_opt(&self.transport_class_id),
        }
    }
}

impl Obligation {
    /// Create a pending obligation.
    pub fn pending(fingerprint_id: &str, question_id: &str) -> (r: Self)
        ensures
            r.fingerprint_id@ == fingerprint_id@,
            r.question_id@ == question_id@,
            r.status == ObligationStatus::Pending,
            r.transport_source is None,
            r.transport_class_id is None,
    {
        Obligation {
            fingerprint_id: owned(fingerprint_id),
            question_id: owned(question_id),
            status: ObligationStatus::Pending,
            transport_source: None,
            transport_class_id: None,
        }
    }

    /// Discharge this obligation directly.
    pub fn discharge_direct(&mut self)
        ensures
            *final(self) == (Obligation { status: ObligationStatus::DischargedDirect, ..*old(self) }),
    {
        self.status = ObligationStatus::DischargedDirect;
    }

    /// Discharge this obligation by symmetry transport.
    pub fn discharge_by_transport(&mut self, source_id: &str, class_id: &str)
        ensures
            final(self).fingerprint_id == old(self).fingerprint_id,
            final(self).question_id == old(self).question_id,
            final(self).status == ObligationStatus::DischargedByTransport,
            final(self).transport_source matches Some(s) && s@ == source_id@,
            final(self).transport_class_id matches Some(c) && c@ == class_id@,
    {
        self.status = ObligationStatus::DischargedByTransport;
        self.transport_source = Some(owned(source_id));
        self.transport_class_id = Some(owned(class_id));
    }

    /// Mark as infeasible.
    pub fn mark_infeasible(&mut self)
        ensures
            *final(self) == (Obligation { status: ObligationStatus::Infeasible, ..*old(self) }),
    {
        self.status = ObligationStatus::Infeasible;
    }

    /// Waive this obligation.
    pub fn waive(&mut self)
        ensures
            *final(self) == (Obligation { status: ObligationStatus::Waived, ..*old(self) }),
    {
        self.status = ObligationStatus::Waived;
    }
}

// ---------------------------------------------------------------------------
// Obligation-graph specifications
// ---------------------------------------------------------------------------

/// Number of obligations whose status satisfies `p`.
pub open spec fn count_status(obs: Seq<Obligation>, p: spec_fn(ObligationStatus) -> bool) -> nat
    decreases obs.len(),
{
    if obs.len() == 0 {
        0
    } else {
        count_status(obs.drop_last(), p) + if p(obs.last().status) {
            1nat
        } else {
            0nat
        }
    }
}

proof fn lemma_count_status_le(obs: Seq<Obligation>, p: spec_fn(ObligationStatus) -> bool)
    ensures
        count_status(obs, p) <= obs.len(),
    decreases obs.len(),
{
    if obs.len() > 0 {
        lemma_count_status_le(obs.drop_last(), p);
    }
}

fn count_obligations(obs: &Vec<Obligation>, which: u8) -> (r: usize)
    requires
        which < 6,
    ensures
        r == count_status(obs@, status_pred(which)),
{
    let ghost p = status_pred(which);
    let mut n: usize = 0;
    let mut i: usize = 0;
    while i < obs.len()
        invariant
            i <= obs@.len(),
            p == status_pred(which),
            n == count_status(obs@.take(i as int), p),
            which < 6,
        decreases obs@.len() - i,
    {
        proof {
            lemma_count_status_le(obs@.take(i as int), p);
        }
        let st = obs[i].status;
        let hit = match which {
            0 => st == ObligationStatus::Pending,
            1 => st.is_discharged(),
            2 => st == ObligationStatus::DischargedByTransport,
            3 => st.is_resolved(),
            4 => st == ObligationStatus::DischargedDirect,
            _ => st == ObligationStatus::Infeasible,
        };
        if hit {
            n = n + 1;
        }
        i = i + 1;
        assert(obs@.take(i as int).drop_last() =~= obs@.take(i - 1));
    }
    assert(obs@.take(i as int) =~= obs@);
    n
}

/// Status predicates indexed for counting: pending, discharged, transport,
/// resolved, direct, infeasible.
pub open spec fn status_pred(which: u8) -> spec_fn(ObligationStatus) -> bool {
    if which == 0 {
        |s: ObligationStatus| s == ObligationStatus::Pending
    } else if which == 1 {
        |s: ObligationStatus| s.discharged()
    } else if which == 2 {
        |s: ObligationStatus| s == ObligationStatus::DischargedByTransport
    } else if which == 3 {
        |s: ObligationStatus| s.resolved()
    } else if which == 4 {
        |s: ObligationStatus| s == ObligationStatus::DischargedDirect
    } else {
        |s: ObligationStatus| s == ObligationStatus::Infeasible
    }
}

/// The (fingerprint, question) grid in fingerprint-major key order.
pub open spec fn grid(fk: Seq<Seq<char>>, qk: Seq<Seq<char>>) -> Seq<(Seq<char>, Seq<char>)>
    decreases fk.len(),
{
    if fk.len() == 0 {
        Seq::empty()
    } else {
        grid(fk.drop_last(), qk) + qk.map_values(|q: Seq<char>| (fk.last(), q))
    }
}

/// Keys of a string map, in order.
pub open spec fn keys_of<V>(m: StrMap<V>) -> Seq<Seq<char>> {
    m.entries().map_values(|e: (String, V)| e.0@)
}

/// Whether the representative's obligation for a question was discharged directly.
pub open spec fn rep_discharged(obs: Seq<Obligation>, rep: Seq<char>, q: Seq<char>) -> bool {
    exists|k: int|
        0 <= k < obs.len() && (#[trigger] obs[k]).fingerprint_id@ == rep && obs[k].question_id@ == q
            && obs[k].status == ObligationStatus::DischargedDirect
}

/// Whether a class transports a discharge to a pending obligation.
pub open spec fn transports(
    c: SymmetryClass,
    questions: StrMap<OptimizationQuestion>,
    obs0: Seq<Obligation>,
    o: Obligation,
) -> bool {
    &&& o.status == ObligationStatus::Pending
    &&& questions.contains_spec(o.question_id@)
    &&& c.member_ids.has(o.fingerprint_id@)
    &&& o.fingerprint_id@ != c.representative_id@
    &&& rep_discharged(obs0, c.representative_id@, o.question_id@)
}

/// An obligation after applying the classes in order.
pub open spec fn reduced(
    o: Obligation,
    classes: Seq<SymmetryClass>,
    questions: StrMap<OptimizationQuestion>,
    obs0: Seq<Obligation>,
) -> Obligation
    decreases classes.len(),
{
    if classes.len() == 0 {
        o
    } else {
        let p = reduced(o, classes.drop_last(), questions, obs0);
        let c = classes.last();
        if transports(c, questions, obs0, p) {
            Obligation {
                status: ObligationStatus::DischargedByTransport,
                transport_source: Some(c.representative_id),
                transport_class_id: Some(c.class_id),
                ..p
            }
        } else {
            p
        }
    }
}

proof fn lemma_reduced_keeps(
    o: Obligation,
    classes: Seq<SymmetryClass>,
    questions: StrMap<OptimizationQuestion>,
    obs0: Seq<Obligation>,
)
    ensures
        reduced(o, classes, questions, obs0).fingerprint_id == o.fingerprint_id,
        reduced(o, classes, questions, obs0).question_id == o.question_id,
        (reduced(o, classes, questions, obs0).status == ObligationStatus::DischargedDirect) == (
        o.status == ObligationStatus::DischargedDirect),
    decreases classes.len(),
{
    if classes.len() > 0 {
        lemma_reduced_keeps(o, classes.drop_last(), questions, obs0);
    }
}

/// Same fingerprint and question, and the same answer to "discharged directly".
pub open spec fn same_key_direct(a: Obligation, b: Obligation) -> bool {
    &&& a.fingerprint_id == b.fingerprint_id
    &&& a.question_id == b.question_id
    &&& (a.status == ObligationStatus::DischargedDirect) == (b.status
        == ObligationStatus::DischargedDirect)
}

/// Largest normalized distance over shared axes, scanning axes in key order;
/// `None` when no axis is comparable.
pub open spec fn cheb_scan(
    axes: Seq<(String, HardwareAxis)>,
    a: HardwareFingerprint,
    b: HardwareFingerprint,
) -> Option<u64>
    decreases axes.len(),
{
    if axes.len() == 0 {
        None
    } else {
        let prev = cheb_scan(axes.drop_last(), a, b);
        match axis_distance(axes.last(), a, b) {
            Some(d) => match prev {
                Some(m) => Some(
                    if d > m {
                        d
                    } else {
                        m
                    },
                ),
                None => Some(d),
            },
            None => prev,
        }
    }
}

/// Normalized distance of two fingerprints on one axis, if both have values
/// and the axis has a non-empty range.
pub open spec fn axis_distance(
    e: (String, HardwareAxis),
    a: HardwareFingerprint,
    b: HardwareFingerprint,
) -> Option<u64> {
    match (a.values.lookup(e.0@), b.values.lookup(e.0@)) {
        (Some(va), Some(vb)) => match (normalized(e.1, va), normalized(e.1, vb)) {
            (Some(na), Some(nb)) => Some(abs_diff(na, nb)),
            _ => None,
        },
        _ => None,
    }
}

/// Running maximum distance and the first key attaining it, starting from
/// `(0, "")` and replacing only on a strictly larger distance.
pub open spec fn max_scan(
    axes: Seq<(String, HardwareAxis)>,
    a: HardwareFingerprint,
    b: HardwareFingerprint,
) -> (u64, Seq<char>)
    decreases axes.len(),
{
    if axes.len() == 0 {
        (0, Seq::empty())
    } else {
        let prev = max_scan(axes.drop_last(), a, b);
        match axis_distance(axes.last(), a, b) {
            Some(d) => if d > prev.0 {
                (d, axes.last().0@)
            } else {
                prev
            },
            None => prev,
        }
    }
}

/// Whether a required axis lacks a value on either fingerprint.
pub open spec fn required_missing(
    axes: StrMap<HardwareAxis>,
    a: HardwareFingerprint,
    b: HardwareFingerprint,
    k: Seq<char>,
) -> bool {
    &&& axes.lookup(k) matches Some(ax)
    &&& ax.required
    &&& (a.values.lookup(k) is None || b.values.lookup(k) is None)
}

/// The outcome `check_symmetry` reports once both fingerprints exist and
/// no required axis is missing.
pub open spec fn symmetry_verdict(
    axes: StrMap<HardwareAxis>,
    a: HardwareFingerprint,
    b: HardwareFingerprint,
    threshold: u64,
) -> Result<SymmetryReason, (Seq<char>, u64)> {
    let (m, k) = max_scan(axes.entries(), a, b);
    if m > threshold {
        Err((k, m))
    } else {
        Ok(SymmetryReason::WithinThreshold { max_distance_millionths: m, threshold_millionths: threshold })
    }
}

// ---------------------------------------------------------------------------
// ObligationGraph
// ---------------------------------------------------------------------------

/// Fingerprints × questions, with symmetry-based reduction.
#[derive(Debug, Clone, PartialEq, Eq)]
pub struct ObligationGraph {
    pub axes: StrMap<HardwareAxis>,
    pub fingerprints: StrMap<HardwareFingerprint>,
    pub questions: StrMap<OptimizationQuestion>,
    pub symmetry_classes: Vec<SymmetryClass>,
    pub obligations: Vec<Obligation>,
    /// Similarity threshold for automatic symmetry detection.
    pub similarity_threshold: u64,
}

impl ObligationGraph {
    /// Create an empty obligation graph.
    pub fn new(similarity_threshold: u64) -> (r: Self)
        ensures
            r.axes.entries().len() == 0,
            r.fingerprints.entries().len() == 0,
            r.questions.entries().len() == 0,
            r.symmetry_classes@.len() == 0,
            r.obligations@.len() == 0,
            r.similarity_threshold == similarity_threshold,
    {
        ObligationGraph {
            axes: StrMap::new(),
            fingerprints: StrMap::new(),
            questions: StrMap::new(),
            symmetry_classes: Vec::new(),
            obligations: Vec::new(),
            similarity_threshold,
        }
    }

    /// Create with default similarity threshold.
    pub fn with_defaults() -> (r: Self)
        ensures
            r.axes.entries().len() == 0,
            r.fingerprints.entries().len() == 0,
            r.questions.entries().len() == 0,
            r.symmetry_classes@.len() == 0,
            r.obligations@.len() == 0,
            r.similarity_threshold == DEFAULT_SIMILARITY_THRESHOLD,
    {
        Self::new(DEFAULT_SIMILARITY_THRESHOLD)
    }

    /// Register a hardware axis under its key.
    pub fn add_axis(&mut self, axis: HardwareAxis)
        ensures
            forall|q: Seq<char>|
                #[trigger] final(self).axes.lookup(q) == if q == axis.key@ {
                    Some(axis)
                } else {
                    old(self).axes.lookup(q)
                },
            final(self).fingerprints == old(self).fingerprints,
            final(self).questions == old(self).questions,
            final(self).symmetry_classes == old(self).symmetry_classes,
            final(self).obligations == old(self).obligations,
            final(self).similarity_threshold == old(self).similarity_threshold,
    {
        let k = axis.key.clone();
        self.axes.insert(k, axis);
    }

    /// Register a hardware fingerprint under its id.
    pub fn add_fingerprint(&mut self, fp: HardwareFingerprint)
        ensures
            forall|q: Seq<char>|
                #[trigger] final(self).fingerprints.lookup(q) == if q == fp.id@ {
                    Some(fp)
                } else {
                    old(self).fingerprints.lookup(q)
                },
            final(self).axes == old(self).axes,
            final(self).questions == old(self).questions,
            final(self).symmetry_classes == old(self).symmetry_classes,
            final(self).obligations == old(self).obligations,
            final(self).similarity_threshold == old(self).similarity_threshold,
    {
        let k = fp.id.clone();
        self.fingerprints.insert(k, fp);
    }

    /// Register an optimization question under its id.
    pub fn add_question(&mut self, q: OptimizationQuestion)
        ensures
            forall|k: Seq<char>|
                #[trigger] final(self).questions.lookup(k) == if k == q.question_id@ {
                    Some(q)
                } else {
                    old(self).questions.lookup(k)
                },
            final(self).axes == old(self).axes,
            final(self).fingerprints == old(self).fingerprints,
            final(self).symmetry_classes == old(self).symmetry_classes,
            final(self).obligations == old(self).obligations,
            final(self).similarity_threshold == old(self).similarity_threshold,
    {
        let k = q.question_id.clone();
        self.questions.insert(k, q);
    }

    /// Register a symmetry class.
    pub fn add_symmetry_class(&mut self, class: SymmetryClass)
        ensures
            final(self).symmetry_classes@ == old(self).symmetry_classes@.push(class),
            final(self).axes == old(self).axes,
            final(self).fingerprints == old(self).fingerprints,
            final(self).questions == old(self).questions,
            final(self).obligations == old(self).obligations,
            final(self).similarity_threshold == old(self).similarity_threshold,
    {
        self.symmetry_classes.push(class);
    }

    /// Replace the obligations by one pending obligation per (fingerprint,
    /// question), fingerprint-major in key order.
    pub fn generate_obligations(&mut self)
        ensures
            final(self).obligations@.map_values(
                |o: Obligation| (o.fingerprint_id@, o.question_id@),
            ) == grid(keys_of(old(self).fingerprints), keys_of(old(self).questions)),
            forall|i: int|
                0 <= i < final(self).obligations@.len() ==> {
                    &&& (#[trigger] final(self).obligations@[i]).status == ObligationStatus::Pending
                    &&& final(self).obligations@[i].transport_source is None
                    &&& final(self).obligations@[i].transport_class_id is None
                },
            final(self).axes == old(self).axes,
            final(self).fingerprints == old(self).fingerprints,
            final(self).questions == old(self).questions,
            final(self).symmetry_classes == old(self).symmetry_classes,
            final(self).similarity_threshold == old(self).similarity_threshold,
    {
        let fps = self.fingerprints.as_slice();
        let qs = self.questions.as_slice();
        let ghost fk = keys_of(self.fingerprints);
        let ghost qk = keys_of(self.questions);
        let mut out: Vec<Obligation> = Vec::new();
        let mut i: usize = 0;
        while i < fps.len()
            invariant
                i <= fps@.len(),
                fps@ == self.fingerprints.entries(),
                qs@ == self.questions.entries(),
                fk == keys_of(self.fingerprints),
                qk == keys_of(self.questions),
                out@.map_values(|o: Obligation| (o.fingerprint_id@, o.question_id@)) == grid(
                    fk.take(i as int),
                    qk,
                ),
                forall|j: int|
                    0 <= j < out@.len() ==> {
                        &&& (#[trigger] out@[j]).status == ObligationStatus::Pending
                        &&& out@[j].transport_source is None
                        &&& out@[j].transport_class_id is None
                    },
            decreases fps@.len() - i,
        {
            let ghost before = out@.map_values(|o: Obligation| (o.fingerprint_id@, o.question_id@));
            let mut j: usize = 0;
            while j < qs.len()
                invariant
                    i < fps@.len(),
                    j <= qs@.len(),
                    fps@ == self.fingerprints.entries(),
                    qs@ == self.questions.entries(),
                    fk == keys_of(self.fingerprints),
                    qk == keys_of(self.questions),
                    out@.map_values(|o: Obligation| (o.fingerprint_id@, o.question_id@)) == before
                        + qk.take(j as int).map_values(|q: Seq<char>| (fk[i as int], q)),
                    forall|t: int|
                        0 <= t < out@.len() ==> {
                            &&& (#[trigger] out@[t]).status == ObligationStatus::Pending
                            &&& out@[t].transport_source is None
                            &&& out@[t].transport_class_id is None
                        },
                decreases qs@.len() - j,
            {
                let ghost prev = out@;
                out.push(Obligation::pending(fps[i].0.as_str(), qs[j].0.as_str()));
                j = j + 1;
                proof {
                    let lhs = out@.map_values(|o: Obligation| (o.fingerprint_id@, o.question_id@));
                    let rhs = before + qk.take(j as int).map_values(
                        |q: Seq<char>| (fk[i as int], q),
                    );
                    let a = qk.take(j as int).map_values(|q: Seq<char>| (fk[i as int], q));
                    assert(prev.map_values(|o: Obligation| (o.fingerprint_id@, o.question_id@))
                        =~= lhs.drop_last());
                    assert(a.drop_last() =~= qk.take(j - 1).map_values(
                        |q: Seq<char>| (fk[i as int], q),
                    ));
                    assert((before + a).drop_last() =~= before + a.drop_last());
                    assert(fk[i as int] == fps@[i as int].0@);
                    assert(qk[j - 1] == qs@[j - 1].0@);
                    assert(lhs.last() == rhs.last());
                    assert(lhs.len() == rhs.len());
                    assert forall|t: int| 0 <= t < lhs.len() implies lhs[t] == rhs[t] by {
                        if t < lhs.len() - 1 {
                            assert(lhs.drop_last()[t] == lhs[t]);
                            assert(rhs.drop_last()[t] == rhs[t]);
                        }
                    }
                    assert(lhs =~= rhs);
                }
            }
            proof {
                assert(qk.take(j as int) =~= qk);
                assert(fk.take(i + 1).drop_last() =~= fk.take(i as int));
                assert(fk.take(i + 1).last() == fk[i as int]);
            }
            i = i + 1;
        }
        assert(fk.take(i as int) =~= fk);
        self.obligations = out;
    }

    /// Total number of obligations.
    pub fn obligation_count(&self) -> (r: usize)
        ensures
            r == self.obligations@.len(),
    {
        self.obligations.len()
    }

    /// Number of pending obligations.
    pub fn pending_count(&self) -> (r: usize)
        ensures
            r == count_status(self.obligations@, status_pred(0)),
    {
        count_obligations(&self.obligations, 0)
    }

    /// Number of discharged obligations (direct + transport).
    pub fn discharged_count(&self) -> (r: usize)
        ensures
            r == count_status(self.obligations@, status_pred(1)),
    {
        count_obligations(&self.obligations, 1)
    }

    /// Number of obligations discharged by transport.
    pub fn transport_count(&self) -> (r: usize)
        ensures
            r == count_status(self.obligations@, status_pred(2)),
    {
        count_obligations(&self.obligations, 2)
    }

    /// Coverage: fraction of obligations resolved (millionths).
    pub fn coverage_millionths(&self) -> (r: u64)
        ensures
            r == ratio_millionths(
                count_status(self.obligations@, status_pred(3)) as u64,
                self.obligations@.len() as u64,
            ),
    {
        let resolved = count_obligations(&self.obligations, 3);
        ratio(resolved as u64, self.obligations.len() as u64)
    }

    /// Reduction ratio: fraction of discharged obligations via transport (millionths).
    pub fn transport_reduction_millionths(&self) -> (r: u64)
        ensures
            r == ratio_millionths(
                count_status(self.obligations@, status_pred(2)) as u64,
                count_status(self.obligations@, status_pred(1)) as u64,
            ),
    {
        let discharged = self.discharged_count() as u64;
        let transport = self.transport_count() as u64;
        ratio(transport, discharged)
    }

    /// Transport each representative's direct discharge to the pending
    /// obligations of the other class members, class by class.
    pub fn reduce_by_symmetry(&mut self)
        ensures
            final(self).obligations@.len() == old(self).obligations@.len(),
            forall|j: int|
                0 <= j < old(self).obligations@.len() ==> #[trigger] final(self).obligations@[j]
                    == reduced(
                    old(self).obligations@[j],
                    old(self).symmetry_classes@,
                    old(self).questions,
                    old(self).obligations@,
                ),
            final(self).axes == old(self).axes,
            final(self).fingerprints == old(self).fingerprints,
            final(self).questions == old(self).questions,
            final(self).symmetry_classes == old(self).symmetry_classes,
            final(self).similarity_threshold == old(self).similarity_threshold,
    {
        let ghost obs0 = self.obligations@;
        let ghost classes = self.symmetry_classes@;
        let ghost orig = *self;
        let mut ci: usize = 0;
        while ci < self.symmetry_classes.len()
            invariant
                self.axes == orig.axes,
                self.fingerprints == orig.fingerprints,
                self.questions == orig.questions,
                self.symmetry_classes == orig.symmetry_classes,
                self.similarity_threshold == orig.similarity_threshold,
                ci <= classes.len(),
                classes == self.symmetry_classes@,
                self.obligations@.len() == obs0.len(),
                forall|j: int|
                    0 <= j < obs0.len() ==> #[trigger] self.obligations@[j] == reduced(
                        obs0[j],
                        classes.take(ci as int),
                        self.questions,
                        obs0,
                    ),
            decreases classes.len() - ci,
        {
            let class = &self.symmetry_classes[ci];
            let ghost mid = self.obligations@;
            // rep_discharged per question, computed against the current
            // obligations (direct discharges never change here).
            let mut j: usize = 0;
            while j < self.obligations.len()
                invariant
                    self.axes == orig.axes,
                    self.fingerprints == orig.fingerprints,
                    self.questions == orig.questions,
                    self.symmetry_classes == orig.symmetry_classes,
                    self.similarity_threshold == orig.similarity_threshold,
                    ci < classes.len(),
                    classes == self.symmetry_classes@,
                    *class == classes[ci as int],
                    j <= self.obligations@.len(),
                    self.obligations@.len() == obs0.len(),
                    mid.len() == obs0.len(),
                    forall|t: int|
                        0 <= t < obs0.len() ==> #[trigger] mid[t] == reduced(
                            obs0[t],
                            classes.take(ci as int),
                            self.questions,
                            obs0,
                        ),
                    forall|t: int|
                        j <= t < obs0.len() ==> #[trigger] self.obligations@[t] == mid[t],
                    forall|t: int|
                        0 <= t < j ==> #[trigger] self.obligations@[t] == reduced(
                            obs0[t],
                            classes.take(ci + 1),
                            self.questions,
                            obs0,
                        ),
                decreases obs0.len() - j,
            {
                proof {
                    assert forall|t: int|
                        0 <= t < obs0.len() implies same_key_direct(
                        #[trigger] self.obligations@[t],
                        obs0[t],
                    ) by {
                        lemma_reduced_keeps(obs0[t], classes.take(ci as int), self.questions, obs0);
                        lemma_reduced_keeps(obs0[t], classes.take(ci + 1), self.questions, obs0);
                    }
                }
                let o = &self.obligations[j];
                let applies = o.status == ObligationStatus::Pending
                    && self.questions.contains_key(o.question_id.as_str())
                    && class.member_ids.contains(o.fingerprint_id.as_str())
                    && !str_eq(o.fingerprint_id.as_str(), class.representative_id.as_str())
                    && self.rep_is_discharged(
                    class.representative_id.as_str(),
                    o.question_id.as_str(),
                    Ghost(obs0),
                );
                proof {
                    assert(classes.take(ci + 1).drop_last() =~= classes.take(ci as int));
                    assert(classes.take(ci + 1).last() == classes[ci as int]);
                }
                if applies {
                    let mut updated = self.obligations[j].clone();
                    updated.status = ObligationStatus::DischargedByTransport;
                    updated.transport_source = Some(class.representative_id.clone());
                    updated.transport_class_id = Some(class.class_id.clone());
                    self.obligations.set(j, updated);
                }
                j = j + 1;
            }
            ci = ci + 1;
        }
        assert(classes.take(ci as int) =~= classes);
    }

    /// Whether the current obligations hold a direct discharge of `rep` for
    /// `q`; they differ from `obs0` only in statuses other than direct discharge.
    fn rep_is_discharged(&self, rep: &str, q: &str, Ghost(obs0): Ghost<Seq<Obligation>>) -> (r:
        bool)
        requires
            self.obligations@.len() == obs0.len(),
            forall|t: int|
                0 <= t < obs0.len() ==> same_key_direct(#[trigger] self.obligations@[t], obs0[t]),
        ensures
            r == rep_discharged(obs0, rep@, q@),
    {
        let mut i: usize = 0;
        while i < self.obligations.len()
            invariant
                i <= self.obligations@.len(),
                self.obligations@.len() == obs0.len(),
                forall|t: int|
                    0 <= t < obs0.len() ==> same_key_direct(#[trigger] self.obligations@[t], obs0[t]),
                forall|t: int|
                    0 <= t < i ==> !((#[trigger] obs0[t]).fingerprint_id@ == rep@
                        && obs0[t].question_id@ == q@ && obs0[t].status
                        == ObligationStatus::DischargedDirect),
            decreases obs0.len() - i,
        {
            let o = &self.obligations[i];
            assert(same_key_direct(self.obligations@[i as int], obs0[i as int]));
            if o.status == ObligationStatus::DischargedDirect && str_eq(
                o.fingerprint_id.as_str(),
                rep,
            ) && str_eq(o.question_id.as_str(), q) {
                return true;
            }
            i = i + 1;
        }
        false
    }

    /// Look up the obligation for a (fingerprint, question) pair.
    pub fn find_obligation(&self, fingerprint_id: &str, question_id: &str) -> (r: Option<
        &Obligation,
    >)
        ensures
            match r {
                Some(o) => exists|i: int|
                    0 <= i < self.obligations@.len() && self.obligations@[i] == *o
                        && o.fingerprint_id@ == fingerprint_id@ && o.question_id@ == question_id@
                        && forall|j: int|
                        0 <= j < i ==> !((#[trigger] self.obligations@[j]).fingerprint_id@
                            == fingerprint_id@ && self.obligations@[j].question_id@
                            == question_id@),
                None => forall|j: int|
                    0 <= j < self.obligations@.len() ==> !((#[trigger] self.obligations@[j]).fingerprint_id@
                        == fingerprint_id@ && self.obligations@[j].question_id@ == question_id@),
            },
    {
        match self.position_of(fingerprint_id, question_id) {
            Some(i) => Some(&self.obligations[i]),
            None => None,
        }
    }

    fn position_of(&self, fingerprint_id: &str, question_id: &str) -> (r: Option<usize>)
        ensures
            match r {
                Some(i) => i < self.obligations@.len() && self.obligations@[i as int].fingerprint_id@
                    == fingerprint_id@ && self.obligations@[i as int].question_id@ == question_id@
                    && forall|j: int|
                    0 <= j < i ==> !((#[trigger] self.obligations@[j]).fingerprint_id@
                        == fingerprint_id@ && self.obligations@[j].question_id@ == question_id@),
                None => forall|j: int|
                    0 <= j < self.obligations@.len() ==> !((#[trigger] self.obligations@[j]).fingerprint_id@
                        == fingerprint_id@ && self.obligations@[j].question_id@ == question_id@),
            },
    {
        let mut i: usize = 0;
        while i < self.obligations.len()
            invariant
                i <= self.obligations@.len(),
                forall|j: int|
                    0 <= j < i ==> !((#[trigger] self.obligations@[j]).fingerprint_id@
                        == fingerprint_id@ && self.obligations@[j].question_id@ == question_id@),
            decreases self.obligations@.len() - i,
        {
            if str_eq(self.obligations[i].fingerprint_id.as_str(), fingerprint_id) && str_eq(
                self.obligations[i].question_id.as_str(),
                question_id,
            ) {
                return Some(i);
            }
            i = i + 1;
        }
        None
    }

    /// Look up the obligation for a (fingerprint, question) pair, for update.
    pub fn find_obligation_mut(&mut self, fingerprint_id: &str, question_id: &str) -> (r: Option<
        &mut Obligation,
    >)
        ensures
            match r {
                Some(o) => exists|i: int|
                    0 <= i < old(self).obligations@.len() && old(self).obligations@[i] == *o
                        && o.fingerprint_id@ == fingerprint_id@ && o.question_id@ == question_id@
                        && final(self).obligations@ == old(self).obligations@.update(i, *final(o))
                        && forall|j: int|
                        0 <= j < i ==> !((#[trigger] old(self).obligations@[j]).fingerprint_id@
                            == fingerprint_id@ && old(self).obligations@[j].question_id@
                            == question_id@),
                None => *final(self) == *old(self) && forall|j: int|
                    0 <= j < old(self).obligations@.len() ==> !((#[trigger] old(
                        self,
                    ).obligations@[j]).fingerprint_id@ == fingerprint_id@
                        && old(self).obligations@[j].question_id@ == question_id@),
            },
            final(self).axes == old(self).axes,
            final(self).fingerprints == old(self).fingerprints,
            final(self).questions == old(self).questions,
            final(self).symmetry_classes == old(self).symmetry_classes,
            final(self).similarity_threshold == old(self).similarity_threshold,
    {
        match self.position_of(fingerprint_id, question_id) {
            Some(i) => Some(&mut self.obligations[i]),
            None => None,
        }
    }

    /// Chebyshev (L∞) distance between two fingerprints over shared axes;
    /// `None` if either fingerprint is unknown or no axis is comparable.
    pub fn chebyshev_distance(&self, fp_a: &str, fp_b: &str) -> (r: Option<u64>)
        ensures
            r == match (self.fingerprints.lookup(fp_a@), self.fingerprints.lookup(fp_b@)) {
                (Some(a), Some(b)) => cheb_scan(self.axes.entries(), a, b),
                _ => None,
            },
    {
        let a = match self.fingerprints.get(fp_a) {
            Some(a) => a,
            None => return None,
        };
        let b = match self.fingerprints.get(fp_b) {
            Some(b) => b,
            None => return None,
        };
        let axes = self.axes.as_slice();
        let mut max_dist: Option<u64> = None;
        let mut i: usize = 0;
        while i < axes.len()
            invariant
                i <= axes@.len(),
                axes@ == self.axes.entries(),
                max_dist == cheb_scan(axes@.take(i as int), *a, *b),
            decreases axes@.len() - i,
        {
            let d = distance_on(&axes[i], a, b);
            match d {
                Some(dist) => {
                    max_dist = match max_dist {
                        Some(m) => Some(
                            if dist > m {
                                dist
                            } else {
                                m
                            },
                        ),
                        None => Some(dist),
                    };
                },
                None => {},
            }
            i = i + 1;
            assert(axes@.take(i as int).drop_last() =~= axes@.take(i - 1));
        }
        assert(axes@.take(i as int) =~= axes@);
        max_dist
    }

    /// Check whether two fingerprints are within the similarity threshold.
    pub fn check_symmetry(&self, fp_a: &str, fp_b: &str) -> (r: Result<SymmetryReason, SymmetryRefusal>)
        ensures
            match (self.fingerprints.lookup(fp_a@), self.fingerprints.lookup(fp_b@)) {
                (None, _) => r matches Err(SymmetryRefusal::IncomparableAxes { missing_keys })
                    && forall|k: Seq<char>| #[trigger] missing_keys.has(k) == (k == fp_a@),
                (Some(_), None) => r matches Err(SymmetryRefusal::IncomparableAxes { missing_keys })
                    && forall|k: Seq<char>| #[trigger] missing_keys.has(k) == (k == fp_b@),
                (Some(a), Some(b)) => if exists|k: Seq<char>|
                    #[trigger] required_missing(self.axes, a, b, k) {
                    r matches Err(SymmetryRefusal::IncomparableAxes { missing_keys })
                        && forall|k: Seq<char>| #[trigger]
                        missing_keys.has(k) == required_missing(self.axes, a, b, k)
                } else {
                    match symmetry_verdict(self.axes, a, b, self.similarity_threshold) {
                        Ok(reason) => r == Ok::<SymmetryReason, SymmetryRefusal>(reason),
                        Err((k, m)) => r matches Err(
                            SymmetryRefusal::ExceedsThreshold {
                                axis_key,
                                distance_millionths,
                                threshold_millionths,
                            },
                        ) && axis_key@ == k && distance_millionths == m && threshold_millionths
                            == self.similarity_threshold,
                    }
                },
            },
    {
        let a = match self.fingerprints.get(fp_a) {
            Some(fp) => fp,
            None => {
                let mut missing = StrSet::new();
                missing.insert(owned(fp_a));
                return Err(SymmetryRefusal::IncomparableAxes { missing_keys: missing });
            },
        };
        let b = match self.fingerprints.get(fp_b) {
            Some(fp) => fp,
            None => {
                let mut missing = StrSet::new();
                missing.insert(owned(fp_b));
                return Err(SymmetryRefusal::IncomparableAxes { missing_keys: missing });
            },
        };
        let axes = self.axes.as_slice();
        let mut missing = StrSet::new();
        let mut i: usize = 0;
        while i < axes.len()
            invariant
                i <= axes@.len(),
                axes@ == self.axes.entries(),
                crate::strmap::sorted_keys(axes@),
                forall|k: Seq<char>|
                    #[trigger] missing.has(k) == exists|t: int|
                        0 <= t < i && (#[trigger] axes@[t]).0@ == k && required_missing(
                            self.axes,
                            *a,
                            *b,
                            k,
                        ),
            decreases axes@.len() - i,
        {
            let key = axes[i].0.as_str();
            if axes[i].1.required && (a.get(key).is_none() || b.get(key).is_none()) {
                proof {
                    crate::strmap::lemma_lookup_at(axes@, i as int);
                }
                missing.insert(owned(key));
            } else {
                proof {
                    crate::strmap::lemma_lookup_at(axes@, i as int);
                }
            }
            i = i + 1;
            proof {
                assert forall|k: Seq<char>|
                    #[trigger] missing.has(k) == exists|t: int|
                        0 <= t < i && (#[trigger] axes@[t]).0@ == k && required_missing(
                            self.axes,
                            *a,
                            *b,
                            k,
                        ) by {
                    if k == axes@[i - 1].0@ && required_missing(self.axes, *a, *b, k) {
                        assert(axes@[i - 1].0@ == k);
                    }
                }
            }
        }
        proof {
            assert forall|k: Seq<char>|
                #[trigger] missing.has(k) == required_missing(self.axes, *a, *b, k) by {
                if required_missing(self.axes, *a, *b, k) {
                    assert(self.axes.contains_spec(k));
                    let t = choose|t: int| 0 <= t < axes@.len() && (#[trigger] axes@[t]).0@ == k;
                    assert(axes@[t].0@ == k);
                }
            }
        }
        if !missing.is_empty() {
            return Err(SymmetryRefusal::IncomparableAxes { missing_keys: missing });
        }
        proof {
            assert forall|k: Seq<char>| !#[trigger] required_missing(self.axes, *a, *b, k) by {
                assert(!missing.has(k));
            }
        }
        let mut max_distance: u64 = 0;
        let mut max_axis = String::new();
        let mut j: usize = 0;
        while j < axes.len()
            invariant
                j <= axes@.len(),
                axes@ == self.axes.entries(),
                (max_distance, max_axis@) == max_scan(axes@.take(j as int), *a, *b),
            decreases axes@.len() - j,
        {
            match distance_on(&axes[j], a, b) {
                Some(dist) => {
                    if dist > max_distance {
                        max_distance = dist;
                        max_axis = axes[j].0.clone();
                    }
                },
                None => {},
            }
            j = j + 1;
            assert(axes@.take(j as int).drop_last() =~= axes@.take(j - 1));
        }
        assert(axes@.take(j as int) =~= axes@);
        if max_distance > self.similarity_threshold {
            Err(
                SymmetryRefusal::ExceedsThreshold {
                    axis_key: max_axis,
                    distance_millionths: max_distance,
                    threshold_millionths: self.similarity_threshold,
                },
            )
        } else {
            Ok(
                SymmetryReason::WithinThreshold {
                    max_distance_millionths: max_distance,
                    threshold_millionths: self.similarity_threshold,
                },
            )
        }
    }
}

fn distance_on(e: &(String, HardwareAxis), a: &HardwareFingerprint, b: &HardwareFingerprint) -> (r:
    Option<u64>)
    ensures
        r == axis_distance(*e, *a, *b),
{
    match (a.get(e.0.as_str()), b.get(e.0.as_str())) {
        (Some(va), Some(vb)) => match (e.1.normalize(va), e.1.normalize(vb)) {
            (Some(na), Some(nb)) => Some(
                if na >= nb {
                    na - nb
                } else {
                    nb - na
                },
            ),
            _ => None,
        },
        _ => None,
    }
}

// ---------------------------------------------------------------------------
// ObligationReport
// ---------------------------------------------------------------------------

/// Summary report of obligation graph coverage and reduction.
#[derive(Debug, Clone, PartialEq, Eq)]
pub struct ObligationReport {
    pub schema_version: String,
    pub epoch: SecurityEpoch,
    pub total_obligations: usize,
    pub pending_obligations: usize,
    pub direct_discharges: usize,
    pub transport_discharges: usize,
    pub infeasible_count: usize,
    pub waived_count: usize,
    pub coverage_millionths: u64,
    pub transport_reduction_millionths: u64,
    pub symmetry_class_count: usize,
    pub nontrivial_class_count: usize,
    pub content_hash: ContentHash,
}

/// Number of classes with more than one member.
pub open spec fn nontrivial_classes(cs: Seq<SymmetryClass>) -> nat
    decreases cs.len(),
{
    if cs.len() == 0 {
        0
    } else {
        nontrivial_classes(cs.drop_last()) + if cs.last().member_ids.members().len() > 1 {
            1nat
        } else {
            0nat
        }
    }
}

impl ObligationReport {
    /// Generate a report from an obligation graph.
    pub fn from_graph(graph: &ObligationGraph, epoch: SecurityEpoch) -> (r: Self)
        ensures
            r.schema_version@ == SCHEMA_VERSION@,
            r.epoch == epoch,
            r.total_obligations == graph.obligations@.len(),
            r.pending_obligations == count_status(graph.obligations@, status_pred(0)),
            r.direct_discharges == count_status(graph.obligations@, status_pred(4)),
            r.transport_discharges == count_status(graph.obligations@, status_pred(2)),
            r.infeasible_count == count_status(graph.obligations@, status_pred(5)),
            r.waived_count == count_status(
                graph.obligations@,
                |s: ObligationStatus| s == ObligationStatus::Waived,
            ),
            r.coverage_millionths == ratio_millionths(
                count_status(graph.obligations@, status_pred(3)) as u64,
                graph.obligations@.len() as u64,
            ),
            r.transport_reduction_millionths == ratio_millionths(
                count_status(graph.obligations@, status_pred(2)) as u64,
                count_status(graph.obligations@, status_pred(1)) as u64,
            ),
            r.symmetry_class_count == graph.symmetry_classes@.len(),
            r.nontrivial_class_count == nontrivial_classes(graph.symmetry_classes@),
            r.content_hash@ == double_sha(
                utf8(SCHEMA_VERSION@) + u64_le(epoch.0) + u64_le(r.total_obligations as u64)
                    + u64_le(r.pending_obligations as u64) + u64_le(r.direct_discharges as u64)
                    + u64_le(r.transport_discharges as u64) + u64_le(r.coverage_millionths),
            ),
    {
        let total_obligations = graph.obligation_count();
        let pending_obligations = graph.pending_count();
        let direct_discharges = count_obligations(&graph.obligations, 4);
        let transport_discharges = graph.transport_count();
        let infeasible_count = count_obligations(&graph.obligations, 5);
        let mut waived_count: usize = 0;
        let mut i: usize = 0;
        let ghost wp = |s: ObligationStatus| s == ObligationStatus::Waived;
        while i < graph.obligations.len()
            invariant
                i <= graph.obligations@.len(),
                waived_count == count_status(graph.obligations@.take(i as int), wp),
                wp == |s: ObligationStatus| s == ObligationStatus::Waived,
            decreases graph.obligations@.len() - i,
        {
            proof {
                lemma_count_status_le(graph.obligations@.take(i as int), wp);
            }
            if graph.obligations[i].status == ObligationStatus::Waived {
                waived_count = waived_count + 1;
            }
            i = i + 1;
            assert(graph.obligations@.take(i as int).drop_last() =~= graph.obligations@.take(
                i - 1,
            ));
        }
        assert(graph.obligations@.take(i as int) =~= graph.obligations@);
        let coverage_millionths = graph.coverage_millionths();
        let transport_reduction_millionths = graph.transport_reduction_millionths();
        let symmetry_class_count = graph.symmetry_classes.len();
        let mut nontrivial_class_count: usize = 0;
        let mut c: usize = 0;
        while c < graph.symmetry_classes.len()
            invariant
                c <= graph.symmetry_classes@.len(),
                nontrivial_class_count == nontrivial_classes(graph.symmetry_classes@.take(c as int)),
                nontrivial_class_count <= c,
            decreases graph.symmetry_classes@.len() - c,
        {
            if !graph.symmetry_classes[c].is_trivial() {
                nontrivial_class_count = nontrivial_class_count + 1;
            }
            c = c + 1;
            assert(graph.symmetry_classes@.take(c as int).drop_last()
                =~= graph.symmetry_classes@.take(c - 1));
        }
        assert(graph.symmetry_classes@.take(c as int) =~= graph.symmetry_classes@);
        let mut buf: Vec<u8> = Vec::new();
        push_str(&mut buf, SCHEMA_VERSION);
        push_u64_le(&mut buf, epoch.as_u64());
        push_u64_le(&mut buf, total_obligations as u64);
        push_u64_le(&mut buf, pending_obligations as u64);
        push_u64_le(&mut buf, direct_discharges as u64);
        push_u64_le(&mut buf, transport_discharges as u64);
        push_u64_le(&mut buf, coverage_millionths);
        let content_hash = double_hash(&buf);
        ObligationReport {
            schema_version: owned(SCHEMA_VERSION),
            epoch,
            total_obligations,
            pending_obligations,
            direct_discharges,
            transport_discharges,
            infeasible_count,
            waived_count,
            coverage_millionths,
            transport_reduction_millionths,
            symmetry_class_count,
            nontrivial_class_count,
            content_hash,
        }
    }

    /// Whether all obligations are resolved.
    pub fn is_complete(&self) -> (r: bool)
        ensures
            r == (self.pending_obligations == 0),
    {
        self.pending_obligations == 0
    }
}

// ---------------------------------------------------------------------------
// Default axis factory
// ---------------------------------------------------------------------------

/// Key, domain, range and required flag of the canonical axes.
pub open spec fn default_axis_row(i: int) -> (Seq<char>, HardwareAxisDomain, u64, u64, bool) {
    if i == 0 {
        ("core_count"@, HardwareAxisDomain::Microarch, 1_000_000, 128_000_000, true)
    } else if i == 1 {
        ("base_freq_mhz"@, HardwareAxisDomain::Microarch, 800_000_000, 6_000_000_000, false)
    } else if i == 2 {
        ("l1d_cache_kb"@, HardwareAxisDomain::Microarch, 16_000_000, 128_000_000, false)
    } else if i == 3 {
        ("l2_cache_kb"@, HardwareAxisDomain::Microarch, 128_000_000, 4_096_000_000, false)
    } else if i == 4 {
        ("l3_cache_mb"@, HardwareAxisDomain::Microarch, 0, 512_000_000, false)
    } else if i == 5 {
        ("mem_bandwidth_gbps"@, HardwareAxisDomain::Memory, 10_000_000, 1_000_000_000, true)
    } else if i == 6 {
        ("mem_capacity_gb"@, HardwareAxisDomain::Memory, 1_000_000, 4_096_000_000, false)
    } else if i == 7 {
        ("mem_latency_ns"@, HardwareAxisDomain::Memory, 30_000_000, 200_000_000, false)
    } else if i == 8 {
        ("simd_width_bits"@, HardwareAxisDomain::Simd, 0, 512_000_000, false)
    } else if i == 9 {
        ("numa_nodes"@, HardwareAxisDomain::Platform, 1_000_000, 8_000_000, false)
    } else if i == 10 {
        ("page_size_kb"@, HardwareAxisDomain::Platform, 4_000_000, 2_048_000_000, false)
    } else {
        ("disk_iops"@, HardwareAxisDomain::Io, 100_000_000, 1_000_000_000_000, false)
    }
}

/// Description of the canonical axes.
pub open spec fn default_axis_description(i: int) -> Seq<char> {
    if i == 0 {
        "Physical core count"@
    } else if i == 1 {
        "Base CPU frequency in MHz (millionths)"@
    } else if i == 2 {
        "L1 data cache size in KB (millionths)"@
    } else if i == 3 {
        "L2 cache size in KB (millionths)"@
    } else if i == 4 {
        "L3 cache size in MB (millionths)"@
    } else if i == 5 {
        "Memory bandwidth in GB/s (millionths)"@
    } else if i == 6 {
        "Memory capacity in GB (millionths)"@
    } else if i == 7 {
        "Memory latency in ns (millionths)"@
    } else if i == 8 {
        "SIMD register width in bits (millionths)"@
    } else if i == 9 {
        "NUMA node count (millionths)"@
    } else if i == 10 {
        "Default page size in KB (millionths)"@
    } else {
        "Disk IOPS (millionths)"@
    }
}

/// Create the canonical set of hardware axes.
pub fn default_hardware_axes() -> (r: Vec<HardwareAxis>)
    ensures
        r@.len() == 12,
        forall|i: int|
            0 <= i < 12 ==> {
                let row = default_axis_row(i);
                &&& (#[trigger] r@[i]).key@ == row.0
                &&& r@[i].domain == row.1
                &&& r@[i].min_millionths == row.2
                &&& r@[i].max_millionths == row.3
                &&& r@[i].required == row.4
                &&& r@[i].description@ == default_axis_description(i)
            },
{
    let mut v: Vec<HardwareAxis> = Vec::new();
    v.push(HardwareAxis::new("core_count", HardwareAxisDomain::Microarch, 1_000_000, 128_000_000, true, "Physical core count"));
    v.push(HardwareAxis::new("base_freq_mhz", HardwareAxisDomain::Microarch, 800_000_000, 6_000_000_000, false, "Base CPU frequency in MHz (millionths)"));
    v.push(HardwareAxis::new("l1d_cache_kb", HardwareAxisDomain::Microarch, 16_000_000, 128_000_000, false, "L1 data cache size in KB (millionths)"));
    v.push(HardwareAxis::new("l2_cache_kb", HardwareAxisDomain::Microarch, 128_000_000, 4_096_000_000, false, "L2 cache size in KB (millionths)"));
    v.push(HardwareAxis::new("l3_cache_mb", HardwareAxisDomain::Microarch, 0, 512_000_000, false, "L3 cache size in MB (millionths)"));
    v.push(HardwareAxis::new("mem_bandwidth_gbps", HardwareAxisDomain::Memory, 10_000_000, 1_000_000_000, true, "Memory bandwidth in GB/s (millionths)"));
    v.push(HardwareAxis::new("mem_capacity_gb", HardwareAxisDomain::Memory, 1_000_000, 4_096_000_000, false, "Memory capacity in GB (millionths)"));
    v.push(HardwareAxis::new("mem_latency_ns", HardwareAxisDomain::Memory, 30_000_000, 200_000_000, false, "Memory latency in ns (millionths)"));
    v.push(HardwareAxis::new("simd_width_bits", HardwareAxisDomain::Simd, 0, 512_000_000, false, "SIMD register width in bits (millionths)"));
    v.push(HardwareAxis::new("numa_nodes", HardwareAxisDomain::Platform, 1_000_000, 8_000_000, false, "NUMA node count (millionths)"));
    v.push(HardwareAxis::new("page_size_kb", HardwareAxisDomain::Platform, 4_000_000, 2_048_000_000, false, "Default page size in KB (millionths)"));
    v.push(HardwareAxis::new("disk_iops", HardwareAxisDomain::Io, 100_000_000, 1_000_000_000_000, false, "Disk IOPS (millionths)"));
    v
}


// ---------------------------------------------------------------------------
// Laws
// ---------------------------------------------------------------------------

/// Symmetry reduction only ever discharges a pending obligation by
/// transport, and only from evidence: an obligation it changes was pending,
/// becomes discharged by transport, and its transport source is the
/// representative of a class that holds the obligation's fingerprint as a
/// non-representative member and whose own obligation for the same question
/// was discharged directly.  Every other obligation is left exactly as it
/// was.
pub proof fn law_transport_only_from_direct_evidence(
    o: Obligation,
    classes: Seq<SymmetryClass>,
    questions: StrMap<OptimizationQuestion>,
    obs0: Seq<Obligation>,
)
    ensures
        reduced(o, classes, questions, obs0) == o || {
            &&& o.status == ObligationStatus::Pending
            &&& reduced(o, classes, questions, obs0).status == ObligationStatus::DischargedByTransport
            &&& reduced(o, classes, questions, obs0).fingerprint_id == o.fingerprint_id
            &&& reduced(o, classes, questions, obs0).question_id == o.question_id
            &&& exists|i: int|
                0 <= i < classes.len() && (#[trigger] classes[i]).member_ids.has(o.fingerprint_id@)
                    && o.fingerprint_id@ != classes[i].representative_id@ && reduced(
                    o,
                    classes,
                    questions,
                    obs0,
                ).transport_source == Some(classes[i].representative_id) && rep_discharged(
                    obs0,
                    classes[i].representative_id@,
                    o.question_id@,
                )
        },
    decreases classes.len(),
{
    if classes.len() > 0 {
        law_transport_only_from_direct_evidence(o, classes.drop_last(), questions, obs0);
        let p = reduced(o, classes.drop_last(), questions, obs0);
        let c = classes.last();
        let n = classes.len() - 1;
        if transports(c, questions, obs0, p) {
            assert(p == o);
            assert(classes[n] == c);
        } else if p != o {
            let i = choose|i: int|
                0 <= i < classes.drop_last().len() && (#[trigger] classes.drop_last()[i]).member_ids.has(
                    o.fingerprint_id@,
                ) && o.fingerprint_id@ != classes.drop_last()[i].representative_id@ && p.transport_source
                    == Some(classes.drop_last()[i].representative_id) && rep_discharged(
                    obs0,
                    classes.drop_last()[i].representative_id@,
                    o.question_id@,
                );
            assert(classes[i] == classes.drop_last()[i]);
        }
    }
}


/// The distance between two fingerprints does not depend on their order.
pub proof fn law_distance_symmetric(axes: Seq<(String, HardwareAxis)>, a: HardwareFingerprint, b: HardwareFingerprint)
    ensures
        cheb_scan(axes, a, b) == cheb_scan(axes, b, a),
    decreases axes.len(),
{
    if axes.len() > 0 {
        law_distance_symmetric(axes.drop_last(), a, b);
        assert(axis_distance(axes.last(), a, b) == axis_distance(axes.last(), b, a));
    }
}

/// Normalization clamps: an axis with an empty range normalizes nothing;
/// otherwise every value lands in `[0, MILLION]`, values at or below the
/// minimum give 0, values at or above the maximum give `MILLION` (while
/// the range times a million fits in a `u64`), and a larger value never
/// normalizes lower.
pub proof fn law_normalization_clamps(a: HardwareAxis, v: u64, w: u64)
    ensures
        a.max_millionths <= a.min_millionths ==> normalized(a, v) is None,
        a.max_millionths > a.min_millionths ==> {
            &&& normalized(a, v) is Some
            &&& normalized(a, v)->Some_0 <= MILLION
            &&& v <= a.min_millionths ==> normalized(a, v) == Some(0u64)
            &&& v >= a.max_millionths && span_of(a) * MILLION <= u64::MAX ==> normalized(a, v) == Some(MILLION)
            &&& v <= w ==> normalized(a, v)->Some_0 <= normalized(a, w)->Some_0
        },
{
    if a.max_millionths > a.min_millionths {
        let span = span_of(a) as int;
        let cv = (if v >= a.min_millionths { if v <= a.max_millionths { v } else { a.max_millionths } } else {
            a.min_millionths
        }) - a.min_millionths;
        let cw = (if w >= a.min_millionths { if w <= a.max_millionths { w } else { a.max_millionths } } else {
            a.min_millionths
        }) - a.min_millionths;
        assert(0 <= cv <= span);
        let pv = sat_mul_spec(cv as u64, 1_000_000) as int;
        let pw = sat_mul_spec(cw as u64, 1_000_000) as int;
        assert(pv <= span * 1_000_000) by (nonlinear_arith)
            requires
                pv == (if cv * 1_000_000 > u64::MAX { u64::MAX as int } else { cv * 1_000_000 }),
                0 <= cv <= span,
        ;
        assert(pv / span <= 1_000_000) by (nonlinear_arith)
            requires
                0 <= pv <= span * 1_000_000,
                span > 0,
        ;
        if v <= w {
            assert(cv <= cw);
            assert(pv <= pw) by (nonlinear_arith)
                requires
                    pv == (if cv * 1_000_000 > u64::MAX { u64::MAX as int } else { cv * 1_000_000 }),
                    pw == (if cw * 1_000_000 > u64::MAX { u64::MAX as int } else { cw * 1_000_000 }),
                    0 <= cv <= cw,
            ;
            vstd::arithmetic::div_mod::lemma_div_is_ordered(pv, pw, span);
        }
        if v >= a.max_millionths && span_of(a) * MILLION <= u64::MAX {
            assert(cv == span);
            assert(pv == span * 1_000_000);
            assert(pv / span == 1_000_000) by (nonlinear_arith)
                requires
                    pv == span * 1_000_000,
                    span > 0,
            ;
        }
    }
}

/// The scan for the largest axis distance does not depend on the order of
/// the two fingerprints.
proof fn lemma_max_scan_symmetric(axes: Seq<(String, HardwareAxis)>, a: HardwareFingerprint, b: HardwareFingerprint)
    ensures
        max_scan(axes, a, b) == max_scan(axes, b, a),
    decreases axes.len(),
{
    if axes.len() > 0 {
        lemma_max_scan_symmetric(axes.drop_last(), a, b);
        assert(axis_distance(axes.last(), a, b) == axis_distance(axes.last(), b, a));
    }
}

/// The symmetry check between two fingerprints does not depend on their
/// order: the same required axes are missing either way, and otherwise the
/// same reason (within threshold, with its largest distance) or the same
/// refusal (the same axis, distance and threshold) results.
pub proof fn law_symmetry_check_symmetric(
    axes: StrMap<HardwareAxis>,
    a: HardwareFingerprint,
    b: HardwareFingerprint,
    threshold: u64,
)
    ensures
        forall|k: Seq<char>| required_missing(axes, a, b, k) == #[trigger] required_missing(axes, b, a, k),
        symmetry_verdict(axes, a, b, threshold) == symmetry_verdict(axes, b, a, threshold),
{
    lemma_max_scan_symmetric(axes.entries(), a, b);
}

/// Every obligation has exactly one status, so the report's pending,
/// direct, transport, infeasible and waived counts add up to the total.
pub proof fn law_obligation_counts_partition(obs: Seq<Obligation>)
    ensures
        count_status(obs, status_pred(0)) + count_status(obs, status_pred(4)) + count_status(
            obs,
            status_pred(2),
        ) + count_status(obs, status_pred(5)) + count_status(
            obs,
            |s: ObligationStatus| s == ObligationStatus::Waived,
        ) == obs.len(),
    decreases obs.len(),
{
    if obs.len() > 0 {
        law_obligation_counts_partition(obs.drop_last());
    }
}

} // verus!
