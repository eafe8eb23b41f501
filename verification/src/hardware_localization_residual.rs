//! Hardware localization residuals.
//!
//! Decomposes observed speedups into hardware-attributable, algorithmic,
//! noise and unexplained residuals per microarchitecture family, decides
//! whether an optimization may be promoted as a cross-architecture win, and
//! surfaces hardware families that cannot run the optimized code path.
//! Fractions are fixed-point millionths (1_000_000 = 1.0).

use crate::collections::{count_where, lemma_count_where_ext, EnumMap, EnumSet, Ranked};
use crate::foundation::{
    bool_text, bool_to_str, decimal, framed_str, owned, push_bytes, push_framed_str, push_u64_be,
    ratio, ratio_millionths, u64_be, u64_to_decimal, ContentHash, SecurityEpoch,
};
use vstd::prelude::*;

verus! {

/// Schema version for localization residual artifacts.
pub const SCHEMA_VERSION: &'static str = "franken-engine.hardware-localization-residual.v1";

/// Component name for diagnostics and evidence linkage.
pub const COMPONENT: &'static str = "hardware_localization_residual";

/// Bead identifier.
pub const BEAD_ID: &'static str = "bd-1lsy.7.16.3";

/// Policy identifier.
pub const POLICY_ID: &'static str = "RGC-616C";

/// Fixed-point unit: 1.0 in millionths.
pub const MILLIONTHS: u64 = 1_000_000;

/// Default minimum algorithmic gain fraction required for promotion (millionths).
pub const DEFAULT_MIN_ALGORITHMIC_GAIN: u64 = 600_000;

/// Default maximum hardware-attributable fraction before promotion is blocked (millionths).
pub const DEFAULT_MAX_HARDWARE_ATTRIBUTABLE: u64 = 300_000;

/// Default minimum number of distinct hardware families tested.
pub const DEFAULT_MIN_FAMILIES_TESTED: usize = 2;

/// Maximum localization entries per board.
pub const MAX_BOARD_ENTRIES: usize = 256;

/// Maximum unsupported-hardware entries per report.
pub const MAX_UNSUPPORTED_ENTRIES: usize = 64;

// ---------------------------------------------------------------------------
// HardwareFeature
// ---------------------------------------------------------------------------

/// Specific hardware feature that may contribute to localized speedup.
#[derive(Debug, Clone, Copy, PartialEq, Eq, PartialOrd, Ord, Hash, Structural)]
pub enum HardwareFeature {
    Avx2,
    Avx512,
    Neon,
    Sve,
    PopcntHw,
    Bmi2,
    Aes,
    CacheLinePrefetch,
    Numa,
    LargePages,
    BranchPredictor,
    Sha,
    Clmul,
}

impl HardwareFeature {
    /// All known hardware features.
    pub const ALL: [HardwareFeature; 13] = [
        HardwareFeature::Avx2,
        HardwareFeature::Avx512,
        HardwareFeature::Neon,
        HardwareFeature::Sve,
        HardwareFeature::PopcntHw,
        HardwareFeature::Bmi2,
        HardwareFeature::Aes,
        HardwareFeature::CacheLinePrefetch,
        HardwareFeature::Numa,
        HardwareFeature::LargePages,
        HardwareFeature::BranchPredictor,
        HardwareFeature::Sha,
        HardwareFeature::Clmul,
    ];

    /// Stable string tag.
    pub open spec fn name(self) -> Seq<char> {
        match self {
            HardwareFeature::Avx2 => "avx2"@,
            HardwareFeature::Avx512 => "avx512"@,
            HardwareFeature::Neon => "neon"@,
            HardwareFeature::Sve => "sve"@,
            HardwareFeature::PopcntHw => "popcnt_hw"@,
            HardwareFeature::Bmi2 => "bmi2"@,
            HardwareFeature::Aes => "aes"@,
            HardwareFeature::CacheLinePrefetch => "cache_line_prefetch"@,
            HardwareFeature::Numa => "numa"@,
            HardwareFeature::LargePages => "large_pages"@,
            HardwareFeature::BranchPredictor => "branch_predictor"@,
            HardwareFeature::Sha => "sha"@,
            HardwareFeature::Clmul => "clmul"@,
        }
    }

    /// Stable string tag for this feature.
    pub fn as_str(self) -> (r: &'static str)
        ensures
            r@ == self.name(),
    {
        match self {
            HardwareFeature::Avx2 => "avx2",
            HardwareFeature::Avx512 => "avx512",
            HardwareFeature::Neon => "neon",
            HardwareFeature::Sve => "sve",
            HardwareFeature::PopcntHw => "popcnt_hw",
            HardwareFeature::Bmi2 => "bmi2",
            HardwareFeature::Aes => "aes",
            HardwareFeature::CacheLinePrefetch => "cache_line_prefetch",
            HardwareFeature::Numa => "numa",
            HardwareFeature::LargePages => "large_pages",
            HardwareFeature::BranchPredictor => "branch_predictor",
            HardwareFeature::Sha => "sha",
            HardwareFeature::Clmul => "clmul",
        }
    }

    /// Whether this feature is x86-specific.
    pub open spec fn x86(self) -> bool {
        self == HardwareFeature::Avx2 || self == HardwareFeature::Avx512 || self
            == HardwareFeature::Bmi2 || self == HardwareFeature::Clmul
    }

    /// Whether this feature is ARM-specific.
    pub open spec fn arm(self) -> bool {
        self == HardwareFeature::Neon || self == HardwareFeature::Sve
    }

    /// Whether this feature is x86-specific.
    pub fn is_x86(self) -> (r: bool)
        ensures
            r == self.x86(),
    {
        match self {
            HardwareFeature::Avx2 | HardwareFeature::Avx512 | HardwareFeature::Bmi2
            | HardwareFeature::Clmul => true,
            _ => false,
        }
    }

    /// Whether this feature is ARM-specific.
    pub fn is_arm(self) -> (r: bool)
        ensures
            r == self.arm(),
    {
        match self {
            HardwareFeature::Neon | HardwareFeature::Sve => true,
            _ => false,
        }
    }

    /// Whether this feature is architecture-neutral (available on both).
    pub fn is_neutral(self) -> (r: bool)
        ensures
            r == (!self.x86() && !self.arm()),
    {
        !self.is_x86() && !self.is_arm()
    }

    /// Display rendering (the stable tag).
    pub fn to_string(&self) -> (r: String)
        ensures
            r@ == self.name(),
    {
        owned(self.as_str())
    }
}

impl Ranked for HardwareFeature {
    open spec fn rank(self) -> nat {
        match self {
            HardwareFeature::Avx2 => 0,
            HardwareFeature::Avx512 => 1,
            HardwareFeature::Neon => 2,
            HardwareFeature::Sve => 3,
            HardwareFeature::PopcntHw => 4,
            HardwareFeature::Bmi2 => 5,
            HardwareFeature::Aes => 6,
            HardwareFeature::CacheLinePrefetch => 7,
            HardwareFeature::Numa => 8,
            HardwareFeature::LargePages => 9,
            HardwareFeature::BranchPredictor => 10,
            HardwareFeature::Sha => 11,
            HardwareFeature::Clmul => 12,
        }
    }

    open spec fn variant_count() -> nat {
        13
    }

    open spec fn of_rank(r: nat) -> Self {
        if r == 0 {
            HardwareFeature::Avx2
        } else if r == 1 {
            HardwareFeature::Avx512
        } else if r == 2 {
            HardwareFeature::Neon
        } else if r == 3 {
            HardwareFeature::Sve
        } else if r == 4 {
            HardwareFeature::PopcntHw
        } else if r == 5 {
            HardwareFeature::Bmi2
        } else if r == 6 {
            HardwareFeature::Aes
        } else if r == 7 {
            HardwareFeature::CacheLinePrefetch
        } else if r == 8 {
            HardwareFeature::Numa
        } else if r == 9 {
            HardwareFeature::LargePages
        } else if r == 10 {
            HardwareFeature::BranchPredictor
        } else if r == 11 {
            HardwareFeature::Sha
        } else {
            HardwareFeature::Clmul
        }
    }

    fn rank_exec(self) -> (r: usize) {
        match self {
            HardwareFeature::Avx2 => 0,
            HardwareFeature::Avx512 => 1,
            HardwareFeature::Neon => 2,
            HardwareFeature::Sve => 3,
            HardwareFeature::PopcntHw => 4,
            HardwareFeature::Bmi2 => 5,
            HardwareFeature::Aes => 6,
            HardwareFeature::CacheLinePrefetch => 7,
            HardwareFeature::Numa => 8,
            HardwareFeature::LargePages => 9,
            HardwareFeature::BranchPredictor => 10,
            HardwareFeature::Sha => 11,
            HardwareFeature::Clmul => 12,
        }
    }

    fn count() -> (r: usize) {
        13
    }

    fn from_rank(r: usize) -> (x: Self) {
        HardwareFeature::ALL[r]
    }

    proof fn lemma_rank(x: Self) {
    }

    proof fn lemma_count() {
    }

    proof fn lemma_of_rank(r: nat) {
    }
}

// ---------------------------------------------------------------------------
// MicroarchFamily
// ---------------------------------------------------------------------------

/// CPU microarchitecture family.
#[derive(Debug, Clone, Copy, PartialEq, Eq, PartialOrd, Ord, Hash, Structural)]
pub enum MicroarchFamily {
    Zen4,
    Zen5,
    AlderLake,
    RaptorLake,
    GravitonArm,
    AppleM,
    GenericX64,
    GenericArm64,
}

impl MicroarchFamily {
    /// All known families.
    pub const ALL: [MicroarchFamily; 8] = [
        MicroarchFamily::Zen4,
        MicroarchFamily::Zen5,
        MicroarchFamily::AlderLake,
        MicroarchFamily::RaptorLake,
        MicroarchFamily::GravitonArm,
        MicroarchFamily::AppleM,
        MicroarchFamily::GenericX64,
        MicroarchFamily::GenericArm64,
    ];

    /// Stable string tag.
    pub open spec fn name(self) -> Seq<char> {
        match self {
            MicroarchFamily::Zen4 => "zen4"@,
            MicroarchFamily::Zen5 => "zen5"@,
            MicroarchFamily::AlderLake => "alder_lake"@,
            MicroarchFamily::RaptorLake => "raptor_lake"@,
            MicroarchFamily::GravitonArm => "graviton_arm"@,
            MicroarchFamily::AppleM => "apple_m"@,
            MicroarchFamily::GenericX64 => "generic_x64"@,
            MicroarchFamily::GenericArm64 => "generic_arm64"@,
        }
    }

    /// Stable string tag.
    pub fn as_str(self) -> (r: &'static str)
        ensures
            r@ == self.name(),
    {
        match self {
            MicroarchFamily::Zen4 => "zen4",
            MicroarchFamily::Zen5 => "zen5",
            MicroarchFamily::AlderLake => "alder_lake",
            MicroarchFamily::RaptorLake => "raptor_lake",
            MicroarchFamily::GravitonArm => "graviton_arm",
            MicroarchFamily::AppleM => "apple_m",
            MicroarchFamily::GenericX64 => "generic_x64",
            MicroarchFamily::GenericArm64 => "generic_arm64",
        }
    }

    /// Whether this family is ARM-based.
    pub open spec fn arm(self) -> bool {
        self == MicroarchFamily::GravitonArm || self == MicroarchFamily::AppleM || self
            == MicroarchFamily::GenericArm64
    }

    /// Whether this family is x86-based.
    pub open spec fn x86(self) -> bool {
        !self.arm()
    }

    /// Whether this family is ARM-based.
    pub fn is_arm(self) -> (r: bool)
        ensures
            r == self.arm(),
    {
        match self {
            MicroarchFamily::GravitonArm | MicroarchFamily::AppleM
            | MicroarchFamily::GenericArm64 => true,
            _ => false,
        }
    }

    /// Whether this family is x86-based.
    pub fn is_x86(self) -> (r: bool)
        ensures
            r == self.x86(),
    {
        match self {
            MicroarchFamily::Zen4 | MicroarchFamily::Zen5 | MicroarchFamily::AlderLake
            | MicroarchFamily::RaptorLake | MicroarchFamily::GenericX64 => true,
            _ => false,
        }
    }

    /// Whether feature `f` is typically available on this family.
    pub open spec fn typical(self, f: HardwareFeature) -> bool {
        match self {
            MicroarchFamily::Zen4 => f == HardwareFeature::Avx2 || f == HardwareFeature::Avx512
                || f == HardwareFeature::PopcntHw || f == HardwareFeature::Bmi2 || f
                == HardwareFeature::Aes || f == HardwareFeature::BranchPredictor,
            MicroarchFamily::Zen5 => f == HardwareFeature::Avx2 || f == HardwareFeature::Avx512
                || f == HardwareFeature::PopcntHw || f == HardwareFeature::Bmi2 || f
                == HardwareFeature::Aes || f == HardwareFeature::BranchPredictor || f
                == HardwareFeature::Sha,
            MicroarchFamily::AlderLake | MicroarchFamily::RaptorLake => f == HardwareFeature::Avx2
                || f == HardwareFeature::PopcntHw || f == HardwareFeature::Bmi2 || f
                == HardwareFeature::Aes || f == HardwareFeature::BranchPredictor,
            MicroarchFamily::GravitonArm => f == HardwareFeature::Neon || f
                == HardwareFeature::PopcntHw || f == HardwareFeature::Aes || f
                == HardwareFeature::Sha,
            MicroarchFamily::AppleM => f == HardwareFeature::Neon || f == HardwareFeature::PopcntHw
                || f == HardwareFeature::Aes || f == HardwareFeature::Sha || f
                == HardwareFeature::BranchPredictor,
            MicroarchFamily::GenericX64 => f == HardwareFeature::PopcntHw,
            MicroarchFamily::GenericArm64 => f == HardwareFeature::Neon,
        }
    }

    /// Typical features available on this family.
    pub fn typical_features(self) -> (r: EnumSet<HardwareFeature>)
        ensures
            forall|f: HardwareFeature| #[trigger] r.has(f) == self.typical(f),
    {
        let mut s = EnumSet::new();
        match self {
            MicroarchFamily::Zen4 => {
                s.insert(HardwareFeature::Avx2);
                s.insert(HardwareFeature::Avx512);
                s.insert(HardwareFeature::PopcntHw);
                s.insert(HardwareFeature::Bmi2);
                s.insert(HardwareFeature::Aes);
                s.insert(HardwareFeature::BranchPredictor);
            },
            MicroarchFamily::Zen5 => {
                s.insert(HardwareFeature::Avx2);
                s.insert(HardwareFeature::Avx512);
                s.insert(HardwareFeature::PopcntHw);
                s.insert(HardwareFeature::Bmi2);
                s.insert(HardwareFeature::Aes);
                s.insert(HardwareFeature::BranchPredictor);
                s.insert(HardwareFeature::Sha);
            },
            MicroarchFamily::AlderLake | MicroarchFamily::RaptorLake => {
                s.insert(HardwareFeature::Avx2);
                s.insert(HardwareFeature::PopcntHw);
                s.insert(HardwareFeature::Bmi2);
                s.insert(HardwareFeature::Aes);
                s.insert(HardwareFeature::BranchPredictor);
            },
            MicroarchFamily::GravitonArm => {
                s.insert(HardwareFeature::Neon);
                s.insert(HardwareFeature::PopcntHw);
                s.insert(HardwareFeature::Aes);
                s.insert(HardwareFeature::Sha);
            },
            MicroarchFamily::AppleM => {
                s.insert(HardwareFeature::Neon);
                s.insert(HardwareFeature::PopcntHw);
                s.insert(HardwareFeature::Aes);
                s.insert(HardwareFeature::Sha);
                s.insert(HardwareFeature::BranchPredictor);
            },
            MicroarchFamily::GenericX64 => {
                s.insert(HardwareFeature::PopcntHw);
            },
            MicroarchFamily::GenericArm64 => {
                s.insert(HardwareFeature::Neon);
            },
        }
        s
    }

    /// Display rendering (the stable tag).
    pub fn to_string(&self) -> (r: String)
        ensures
            r@ == self.name(),
    {
        owned(self.as_str())
    }
}

impl Ranked for MicroarchFamily {
    open spec fn rank(self) -> nat {
        match self {
            MicroarchFamily::Zen4 => 0,
            MicroarchFamily::Zen5 => 1,
            MicroarchFamily::AlderLake => 2,
            MicroarchFamily::RaptorLake => 3,
            MicroarchFamily::GravitonArm => 4,
            MicroarchFamily::AppleM => 5,
            MicroarchFamily::GenericX64 => 6,
            MicroarchFamily::GenericArm64 => 7,
        }
    }

    open spec fn variant_count() -> nat {
        8
    }

    open spec fn of_rank(r: nat) -> Self {
        if r == 0 {
            MicroarchFamily::Zen4
        } else if r == 1 {
            MicroarchFamily::Zen5
        } else if r == 2 {
            MicroarchFamily::AlderLake
        } else if r == 3 {
            MicroarchFamily::RaptorLake
        } else if r == 4 {
            MicroarchFamily::GravitonArm
        } else if r == 5 {
            MicroarchFamily::AppleM
        } else if r == 6 {
            MicroarchFamily::GenericX64
        } else {
            MicroarchFamily::GenericArm64
        }
    }

    fn rank_exec(self) -> (r: usize) {
        match self {
            MicroarchFamily::Zen4 => 0,
            MicroarchFamily::Zen5 => 1,
            MicroarchFamily::AlderLake => 2,
            MicroarchFamily::RaptorLake => 3,
            MicroarchFamily::GravitonArm => 4,
            MicroarchFamily::AppleM => 5,
            MicroarchFamily::GenericX64 => 6,
            MicroarchFamily::GenericArm64 => 7,
        }
    }

    fn count() -> (r: usize) {
        8
    }

    fn from_rank(r: usize) -> (x: Self) {
        MicroarchFamily::ALL[r]
    }

    proof fn lemma_rank(x: Self) {
    }

    proof fn lemma_count() {
    }

    proof fn lemma_of_rank(r: nat) {
    }
}

// ---------------------------------------------------------------------------
// ResidualCategory
// ---------------------------------------------------------------------------

/// Category of residual in a localization decomposition.
#[derive(Debug, Clone, Copy, PartialEq, Eq, PartialOrd, Ord, Hash, Structural)]
pub enum ResidualCategory {
    HardwareAttributable,
    AlgorithmicGain,
    MeasurementNoise,
    Unexplained,
}

impl ResidualCategory {
    /// All residual categories.
    pub const ALL: [ResidualCategory; 4] = [
        ResidualCategory::HardwareAttributable,
        ResidualCategory::AlgorithmicGain,
        ResidualCategory::MeasurementNoise,
        ResidualCategory::Unexplained,
    ];

    /// Stable string tag.
    pub open spec fn name(self) -> Seq<char> {
        match self {
            ResidualCategory::HardwareAttributable => "hardware_attributable"@,
            ResidualCategory::AlgorithmicGain => "algorithmic_gain"@,
            ResidualCategory::MeasurementNoise => "measurement_noise"@,
            ResidualCategory::Unexplained => "unexplained"@,
        }
    }

    /// Stable string tag.
    pub fn as_str(self) -> (r: &'static str)
        ensures
            r@ == self.name(),
    {
        match self {
            ResidualCategory::HardwareAttributable => "hardware_attributable",
            ResidualCategory::AlgorithmicGain => "algorithmic_gain",
            ResidualCategory::MeasurementNoise => "measurement_noise",
            ResidualCategory::Unexplained => "unexplained",
        }
    }

    /// Display rendering (the stable tag).
    pub fn to_string(&self) -> (r: String)
        ensures
            r@ == self.name(),
    {
        owned(self.as_str())
    }
}

impl Ranked for ResidualCategory {
    open spec fn rank(self) -> nat {
        match self {
            ResidualCategory::HardwareAttributable => 0,
            ResidualCategory::AlgorithmicGain => 1,
            ResidualCategory::MeasurementNoise => 2,
            ResidualCategory::Unexplained => 3,
        }
    }

    open spec fn variant_count() -> nat {
        4
    }

    open spec fn of_rank(r: nat) -> Self {
        if r == 0 {
            ResidualCategory::HardwareAttributable
        } else if r == 1 {
            ResidualCategory::AlgorithmicGain
        } else if r == 2 {
            ResidualCategory::MeasurementNoise
        } else {
            ResidualCategory::Unexplained
        }
    }

    fn rank_exec(self) -> (r: usize) {
        match self {
            ResidualCategory::HardwareAttributable => 0,
            ResidualCategory::AlgorithmicGain => 1,
            ResidualCategory::MeasurementNoise => 2,
            ResidualCategory::Unexplained => 3,
        }
    }

    fn count() -> (r: usize) {
        4
    }

    fn from_rank(r: usize) -> (x: Self) {
        ResidualCategory::ALL[r]
    }

    proof fn lemma_rank(x: Self) {
    }

    proof fn lemma_count() {
    }

    proof fn lemma_of_rank(r: nat) {
    }
}

// ---------------------------------------------------------------------------
// Canonical encodings
// ---------------------------------------------------------------------------

/// Framed names of a feature sequence.
pub open spec fn framed_features(fs: Seq<HardwareFeature>) -> Seq<u8>
    decreases fs.len(),
{
    if fs.len() == 0 {
        Seq::empty()
    } else {
        framed_features(fs.drop_last()) + framed_str(fs.last().name())
    }
}

/// Framed category names each followed by its big-endian value.
pub open spec fn framed_breakdown(es: Seq<(ResidualCategory, u64)>) -> Seq<u8>
    decreases es.len(),
{
    if es.len() == 0 {
        Seq::empty()
    } else {
        framed_breakdown(es.drop_last()) + framed_str(es.last().0.name()) + u64_be(es.last().1)
    }
}

/// Concatenated digests.
pub open spec fn concat_hashes(hs: Seq<ContentHash>) -> Seq<u8>
    decreases hs.len(),
{
    if hs.len() == 0 {
        Seq::empty()
    } else {
        concat_hashes(hs.drop_last()) + hs.last()@
    }
}

fn push_features(buf: &mut Vec<u8>, set: &EnumSet<HardwareFeature>)
    ensures
        final(buf)@ == old(buf)@ + framed_features(set.members()),
{
    let fs = set.to_vec();
    let ghost start = buf@;
    let mut i: usize = 0;
    while i < fs.len()
        invariant
            i <= fs@.len(),
            fs@ == set.members(),
            buf@ == start + framed_features(fs@.take(i as int)),
        decreases fs@.len() - i,
    {
        push_framed_str(buf, fs[i].as_str());
        i = i + 1;
        assert(fs@.take(i as int).drop_last() =~= fs@.take(i - 1));
    }
    assert(fs@.take(i as int) =~= fs@);
}

// ---------------------------------------------------------------------------
// LocalizationEntry
// ---------------------------------------------------------------------------

/// A single measurement on one hardware family with a residual decomposition.
#[derive(Debug, Clone, Copy, PartialEq, Eq)]
pub struct LocalizationEntry {
    pub hardware_family: MicroarchFamily,
    /// Hardware features required by the optimized code path.
    pub required_features: EnumSet<HardwareFeature>,
    pub baseline_ns: u64,
    pub optimized_ns: u64,
    /// Residual breakdown: category -> fraction in millionths.
    pub residual_breakdown: EnumMap<ResidualCategory, u64>,
    pub entry_hash: ContentHash,
}

/// Value of a residual category, zero when absent.
pub open spec fn fraction_of(e: LocalizationEntry, c: ResidualCategory) -> u64 {
    match e.residual_breakdown.lookup(c) {
        Some(v) => v,
        None => 0,
    }
}

/// Observed speedup in millionths, zero when there is none.
pub open spec fn speedup(e: LocalizationEntry) -> u64 {
    if e.baseline_ns == 0 || e.optimized_ns >= e.baseline_ns {
        0
    } else {
        ratio_millionths((e.baseline_ns - e.optimized_ns) as u64, e.baseline_ns)
    }
}

impl LocalizationEntry {
    /// Bytes hashed to seal the entry.
    pub open spec fn seal_input(self) -> Seq<u8> {
        framed_str(self.hardware_family.name()) + framed_features(self.required_features.members())
            + u64_be(self.baseline_ns) + u64_be(self.optimized_ns) + framed_breakdown(
            self.residual_breakdown.entries(),
        )
    }

    /// Whether the hash matches the contents.
    pub open spec fn sealed(self) -> bool {
        self.entry_hash@ == vstd_sha(self.seal_input())
    }

    /// Create a new localization entry and compute its hash.
    pub fn new(
        hardware_family: MicroarchFamily,
        required_features: EnumSet<HardwareFeature>,
        baseline_ns: u64,
        optimized_ns: u64,
        residual_breakdown: EnumMap<ResidualCategory, u64>,
    ) -> (r: Self)
        ensures
            r.hardware_family == hardware_family,
            r.required_features == required_features,
            r.baseline_ns == baseline_ns,
            r.optimized_ns == optimized_ns,
            r.residual_breakdown == residual_breakdown,
            r.sealed(),
    {
        let mut entry = LocalizationEntry {
            hardware_family,
            required_features,
            baseline_ns,
            optimized_ns,
            residual_breakdown,
            entry_hash: ContentHash::compute(&[]),
        };
        entry.seal();
        entry
    }

    /// Recompute the content hash.
    pub fn seal(&mut self)
        ensures
            final(self).hardware_family == old(self).hardware_family,
            final(self).required_features == old(self).required_features,
            final(self).baseline_ns == old(self).baseline_ns,
            final(self).optimized_ns == old(self).optimized_ns,
            final(self).residual_breakdown == old(self).residual_breakdown,
            final(self).sealed(),
    {
        let mut buf: Vec<u8> = Vec::new();
        push_framed_str(&mut buf, self.hardware_family.as_str());
        push_features(&mut buf, &self.required_features);
        push_u64_be(&mut buf, self.baseline_ns);
        push_u64_be(&mut buf, self.optimized_ns);
        let es = self.residual_breakdown.to_vec();
        let ghost start = buf@;
        let mut i: usize = 0;
        while i < es.len()
            invariant
                i <= es@.len(),
                es@ == self.residual_breakdown.entries(),
                buf@ == start + framed_breakdown(es@.take(i as int)),
            decreases es@.len() - i,
        {
            push_framed_str(&mut buf, es[i].0.as_str());
            push_u64_be(&mut buf, es[i].1);
            i = i + 1;
            assert(es@.take(i as int).drop_last() =~= es@.take(i - 1));
        }
        assert(es@.take(i as int) =~= es@);
        assert(buf@ =~= self.seal_input());
        self.entry_hash = ContentHash::compute(buf.as_slice());
    }

    /// Observed speedup ratio in millionths; zero if baseline is zero or
    /// optimized >= baseline.
    pub fn speedup_millionths(&self) -> (r: u64)
        ensures
            r == speedup(*self),
    {
        if self.baseline_ns == 0 || self.optimized_ns >= self.baseline_ns {
            return 0;
        }
        ratio(self.baseline_ns - self.optimized_ns, self.baseline_ns)
    }

    /// Fraction of the residual attributed to algorithmic gain (millionths).
    pub fn algorithmic_fraction(&self) -> (r: u64)
        ensures
            r == fraction_of(*self, ResidualCategory::AlgorithmicGain),
    {
        match self.residual_breakdown.get(&ResidualCategory::AlgorithmicGain) {
            Some(v) => v,
            None => 0,
        }
    }

    /// Fraction of the residual attributed to hardware (millionths).
    pub fn hardware_fraction(&self) -> (r: u64)
        ensures
            r == fraction_of(*self, ResidualCategory::HardwareAttributable),
    {
        match self.residual_breakdown.get(&ResidualCategory::HardwareAttributable) {
            Some(v) => v,
            None => 0,
        }
    }

    /// Sum of all residual fractions.
    pub fn residual_sum(&self) -> (r: u64)
        requires
            crate::collections::value_sum(self.residual_breakdown.entries()) <= u64::MAX,
        ensures
            r == crate::collections::value_sum(self.residual_breakdown.entries()),
    {
        self.residual_breakdown.value_total()
    }

    /// Whether this entry's required features are all typically available on
    /// the given hardware family.
    pub fn features_available_on(&self, family: MicroarchFamily) -> (r: bool)
        ensures
            r == (forall|f: HardwareFeature|
                #[trigger] self.required_features.has(f) ==> family.typical(f)),
    {
        let typical = family.typical_features();
        self.required_features.is_subset(&typical)
    }

    /// Display rendering `family: Bns->Ons (algo=a%, hw=h%)`.
    pub fn to_string(&self) -> (r: String)
        ensures
            r@ == self.hardware_family.name() + ": "@ + decimal(self.baseline_ns as nat) + "ns->"@
                + decimal(self.optimized_ns as nat) + "ns (algo="@ + decimal(
                (fraction_of(*self, ResidualCategory::AlgorithmicGain) / 10_000) as nat,
            ) + "%, hw="@ + decimal(
                (fraction_of(*self, ResidualCategory::HardwareAttributable) / 10_000) as nat,
            ) + "%)"@,
    {
        let mut s = owned(self.hardware_family.as_str());
        s.append(": ");
        s.append(u64_to_decimal(self.baseline_ns).as_str());
        s.append("ns->");
        s.append(u64_to_decimal(self.optimized_ns).as_str());
        s.append("ns (algo=");
        s.append(u64_to_decimal(self.algorithmic_fraction() / 10_000).as_str());
        s.append("%, hw=");
        s.append(u64_to_decimal(self.hardware_fraction() / 10_000).as_str());
        s.append("%)");
        s
    }
}

/// SHA-256 of the given bytes.
pub open spec fn vstd_sha(data: Seq<u8>) -> Seq<u8> {
    crate::foundation::sha256_digest(data)
}

// ---------------------------------------------------------------------------
// PromotionPolicy
// ---------------------------------------------------------------------------

/// Policy governing when an optimization may be promoted.
#[derive(Debug, Clone, Copy, PartialEq, Eq, Structural)]
pub struct PromotionPolicy {
    pub min_algorithmic_gain_millionths: u64,
    pub max_hardware_attributable_millionths: u64,
    pub min_hardware_families_tested: usize,
    pub require_arm_and_x64: bool,
    pub max_noise_millionths: u64,
    pub max_unexplained_millionths: u64,
}

impl PromotionPolicy {
    /// The strict policy.
    pub open spec fn strict_spec() -> PromotionPolicy {
        PromotionPolicy {
            min_algorithmic_gain_millionths: DEFAULT_MIN_ALGORITHMIC_GAIN,
            max_hardware_attributable_millionths: DEFAULT_MAX_HARDWARE_ATTRIBUTABLE,
            min_hardware_families_tested: 3,
            require_arm_and_x64: true,
            max_noise_millionths: 100_000,
            max_unexplained_millionths: 100_000,
        }
    }

    /// Strict policy suitable for production promotion gates.
    pub fn strict() -> (r: Self)
        ensures
            r == PromotionPolicy::strict_spec(),
    {
        PromotionPolicy {
            min_algorithmic_gain_millionths: DEFAULT_MIN_ALGORITHMIC_GAIN,
            max_hardware_attributable_millionths: DEFAULT_MAX_HARDWARE_ATTRIBUTABLE,
            min_hardware_families_tested: 3,
            require_arm_and_x64: true,
            max_noise_millionths: 100_000,
            max_unexplained_millionths: 100_000,
        }
    }

    /// Relaxed policy for development / CI use.
    pub fn relaxed() -> (r: Self)
        ensures
            r.min_algorithmic_gain_millionths == 400_000,
            r.max_hardware_attributable_millionths == 500_000,
            r.min_hardware_families_tested == DEFAULT_MIN_FAMILIES_TESTED,
            !r.require_arm_and_x64,
            r.max_noise_millionths == 200_000,
            r.max_unexplained_millionths == 200_000,
    {
        PromotionPolicy {
            min_algorithmic_gain_millionths: 400_000,
            max_hardware_attributable_millionths: 500_000,
            min_hardware_families_tested: DEFAULT_MIN_FAMILIES_TESTED,
            require_arm_and_x64: false,
            max_noise_millionths: 200_000,
            max_unexplained_millionths: 200_000,
        }
    }
}

impl Default for PromotionPolicy {
    fn default() -> (r: Self)
        ensures
            r == PromotionPolicy::strict_spec(),
    {
        PromotionPolicy::strict()
    }
}

// ---------------------------------------------------------------------------
// PromotionVerdict
// ---------------------------------------------------------------------------

/// Outcome of promotion evaluation.
#[derive(Debug, Clone, Copy, PartialEq, Eq, PartialOrd, Ord, Hash, Structural)]
pub enum PromotionVerdict {
    Promotable,
    HardwareDependent,
    InsufficientEvidence,
    Rejected,
}

impl PromotionVerdict {
    /// Stable string tag.
    pub open spec fn name(self) -> Seq<char> {
        match self {
            PromotionVerdict::Promotable => "promotable"@,
            PromotionVerdict::HardwareDependent => "hardware_dependent"@,
            PromotionVerdict::InsufficientEvidence => "insufficient_evidence"@,
            PromotionVerdict::Rejected => "rejected"@,
        }
    }

    /// Stable string tag.
    pub fn as_str(&self) -> (r: &'static str)
        ensures
            r@ == self.name(),
    {
        match self {
            PromotionVerdict::Promotable => "promotable",
            PromotionVerdict::HardwareDependent => "hardware_dependent",
            PromotionVerdict::InsufficientEvidence => "insufficient_evidence",
            PromotionVerdict::Rejected => "rejected",
        }
    }

    /// Whether this is a passing verdict.
    pub fn is_pass(&self) -> (r: bool)
        ensures
            r == (*self == PromotionVerdict::Promotable),
    {
        match self {
            PromotionVerdict::Promotable => true,
            _ => false,
        }
    }

    /// Display rendering (the stable tag).
    pub fn to_string(&self) -> (r: String)
        ensures
            r@ == self.name(),
    {
        owned(self.as_str())
    }
}

// ---------------------------------------------------------------------------
// RejectionDetail
// ---------------------------------------------------------------------------

/// Detailed reason for a non-promotable verdict.
#[derive(Debug, Clone, Copy, PartialEq, Eq, PartialOrd, Ord, Structural)]
pub enum RejectionDetail {
    AlgorithmicGainTooLow { observed_millionths: u64, threshold_millionths: u64 },
    HardwareAttributableTooHigh { observed_millionths: u64, threshold_millionths: u64 },
    TooFewFamilies { tested: usize, required: usize },
    MissingIsaCoverage { has_arm: bool, has_x64: bool },
    ExcessiveNoise { family: MicroarchFamily, noise_millionths: u64, threshold_millionths: u64 },
    ExcessiveUnexplained {
        family: MicroarchFamily,
        unexplained_millionths: u64,
        threshold_millionths: u64,
    },
    EmptyBoard,
    NoSpeedupObserved,
}

impl RejectionDetail {
    /// Display text of the detail.
    pub open spec fn text(self) -> Seq<char> {
        match self {
            RejectionDetail::AlgorithmicGainTooLow { observed_millionths, threshold_millionths } =>
                "algorithmic gain "@ + decimal(observed_millionths as nat) + " < threshold "@
                + decimal(threshold_millionths as nat),
            RejectionDetail::HardwareAttributableTooHigh {
                observed_millionths,
                threshold_millionths,
            } => "hardware attributable "@ + decimal(observed_millionths as nat) + " > threshold "@
                + decimal(threshold_millionths as nat),
            RejectionDetail::TooFewFamilies { tested, required } => "tested "@ + decimal(
                tested as nat,
            ) + " families, need "@ + decimal(required as nat),
            RejectionDetail::MissingIsaCoverage { has_arm, has_x64 } => "ISA coverage: arm="@
                + bool_text(has_arm) + ", x64="@ + bool_text(has_x64),
            RejectionDetail::ExcessiveNoise { family, noise_millionths, threshold_millionths } =>
                "noise on "@ + family.name() + ": "@ + decimal(noise_millionths as nat) + " > "@
                + decimal(threshold_millionths as nat),
            RejectionDetail::ExcessiveUnexplained {
                family,
                unexplained_millionths,
                threshold_millionths,
            } => "unexplained on "@ + family.name() + ": "@ + decimal(
                unexplained_millionths as nat,
            ) + " > "@ + decimal(threshold_millionths as nat),
            RejectionDetail::EmptyBoard => "no entries in board"@,
            RejectionDetail::NoSpeedupObserved => "no speedup observed"@,
        }
    }

    /// Display rendering of the detail.
    pub fn to_string(&self) -> (r: String)
        ensures
            r@ == self.text(),
    {
        match *self {
            RejectionDetail::AlgorithmicGainTooLow { observed_millionths, threshold_millionths } => {
                let mut s = owned("algorithmic gain ");
                s.append(u64_to_decimal(observed_millionths).as_str());
                s.append(" < threshold ");
                s.append(u64_to_decimal(threshold_millionths).as_str());
                s
            },
            RejectionDetail::HardwareAttributableTooHigh {
                observed_millionths,
                threshold_millionths,
            } => {
                let mut s = owned("hardware attributable ");
                s.append(u64_to_decimal(observed_millionths).as_str());
                s.append(" > threshold ");
                s.append(u64_to_decimal(threshold_millionths).as_str());
                s
            },
            RejectionDetail::TooFewFamilies { tested, required } => {
                let mut s = owned("tested ");
                s.append(u64_to_decimal(tested as u64).as_str());
                s.append(" families, need ");
                s.append(u64_to_decimal(required as u64).as_str());
                s
            },
            RejectionDetail::MissingIsaCoverage { has_arm, has_x64 } => {
                let mut s = owned("ISA coverage: arm=");
                s.append(bool_to_str(has_arm));
                s.append(", x64=");
                s.append(bool_to_str(has_x64));
                s
            },
            RejectionDetail::ExcessiveNoise { family, noise_millionths, threshold_millionths } => {
                let mut s = owned("noise on ");
                s.append(family.as_str());
                s.append(": ");
                s.append(u64_to_decimal(noise_millionths).as_str());
                s.append(" > ");
                s.append(u64_to_decimal(threshold_millionths).as_str());
                s
            },
            RejectionDetail::ExcessiveUnexplained {
                family,
                unexplained_millionths,
                threshold_millionths,
            } => {
                let mut s = owned("unexplained on ");
                s.append(family.as_str());
                s.append(": ");
                s.append(u64_to_decimal(unexplained_millionths).as_str());
                s.append(" > ");
                s.append(u64_to_decimal(threshold_millionths).as_str());
                s
            },
            RejectionDetail::EmptyBoard => owned("no entries in board"),
            RejectionDetail::NoSpeedupObserved => owned("no speedup observed"),
        }
    }
}

// ---------------------------------------------------------------------------
// UnsupportedHardwareEntry
// ---------------------------------------------------------------------------

/// Record of a hardware family that cannot run the optimized code path.
#[derive(Debug, Clone, Copy, PartialEq, Eq)]
pub struct UnsupportedHardwareEntry {
    pub family: MicroarchFamily,
    pub missing_features: EnumSet<HardwareFeature>,
    pub estimated_regression_millionths: u64,
    pub fallback_available: bool,
    pub content_hash: ContentHash,
}

impl UnsupportedHardwareEntry {
    /// Bytes hashed to seal the entry.
    pub open spec fn seal_input(self) -> Seq<u8> {
        framed_str(self.family.name()) + framed_features(self.missing_features.members()) + u64_be(
            self.estimated_regression_millionths,
        ) + seq![if self.fallback_available {
            1u8
        } else {
            0u8
        }]
    }

    /// Whether the hash matches the contents.
    pub open spec fn sealed(self) -> bool {
        self.content_hash@ == vstd_sha(self.seal_input())
    }

    /// Create a new entry with computed hash.
    pub fn new(
        family: MicroarchFamily,
        missing_features: EnumSet<HardwareFeature>,
        estimated_regression_millionths: u64,
        fallback_available: bool,
    ) -> (r: Self)
        ensures
            r.family == family,
            r.missing_features == missing_features,
            r.estimated_regression_millionths == estimated_regression_millionths,
            r.fallback_available == fallback_available,
            r.sealed(),
    {
        let mut e = UnsupportedHardwareEntry {
            family,
            missing_features,
            estimated_regression_millionths,
            fallback_available,
            content_hash: ContentHash::compute(&[]),
        };
        e.seal();
        e
    }

    /// Recompute content hash.
    pub fn seal(&mut self)
        ensures
            final(self).family == old(self).family,
            final(self).missing_features == old(self).missing_features,
            final(self).estimated_regression_millionths == old(
                self,
            ).estimated_regression_millionths,
            final(self).fallback_available == old(self).fallback_available,
            final(self).sealed(),
    {
        let mut buf: Vec<u8> = Vec::new();
        push_framed_str(&mut buf, self.family.as_str());
        push_features(&mut buf, &self.missing_features);
        push_u64_be(&mut buf, self.estimated_regression_millionths);
        buf.push(
            if self.fallback_available {
                1
            } else {
                0
            },
        );
        assert(buf@ =~= self.seal_input());
        self.content_hash = ContentHash::compute(buf.as_slice());
    }

    /// Display rendering `family: n missing feature(s), regression=r%, fallback=b`.
    pub fn to_string(&self) -> (r: String)
        ensures
            r@ == self.family.name() + ": "@ + decimal(self.missing_features.members().len())
                + " missing feature(s), regression="@ + decimal(
                (self.estimated_regression_millionths / 10_000) as nat,
            ) + "%, fallback="@ + bool_text(self.fallback_available),
    {
        let mut s = owned(self.family.as_str());
        s.append(": ");
        s.append(u64_to_decimal(self.missing_features.len() as u64).as_str());
        s.append(" missing feature(s), regression=");
        s.append(u64_to_decimal(self.estimated_regression_millionths / 10_000).as_str());
        s.append("%, fallback=");
        s.append(bool_to_str(self.fallback_available));
        s
    }
}

// ---------------------------------------------------------------------------
// Board-level specifications
// ---------------------------------------------------------------------------

/// Whether some entry was measured on `f`.
pub open spec fn tested(es: Seq<LocalizationEntry>, f: MicroarchFamily) -> bool {
    exists|i: int| 0 <= i < es.len() && (#[trigger] es[i]).hardware_family == f
}

/// Number of families among the first `k` (in declaration order) that were tested.
pub open spec fn tested_count(es: Seq<LocalizationEntry>, k: nat) -> nat
    decreases k,
{
    if k == 0 {
        0
    } else {
        tested_count(es, (k - 1) as nat) + if tested(es, MicroarchFamily::of_rank((k - 1) as nat)) {
            1nat
        } else {
            0nat
        }
    }
}

/// Number of distinct families tested.
pub open spec fn family_count_of(es: Seq<LocalizationEntry>) -> nat {
    tested_count(es, 8)
}

/// Whether some ARM family was tested.
pub open spec fn has_arm(es: Seq<LocalizationEntry>) -> bool {
    exists|i: int| 0 <= i < es.len() && (#[trigger] es[i]).hardware_family.arm()
}

/// Whether some x86 family was tested.
pub open spec fn has_x64(es: Seq<LocalizationEntry>) -> bool {
    exists|i: int| 0 <= i < es.len() && (#[trigger] es[i]).hardware_family.x86()
}

/// Sum of algorithmic fractions.
pub open spec fn sum_algorithmic(es: Seq<LocalizationEntry>) -> nat
    decreases es.len(),
{
    if es.len() == 0 {
        0
    } else {
        sum_algorithmic(es.drop_last()) + fraction_of(
            es.last(),
            ResidualCategory::AlgorithmicGain,
        ) as nat
    }
}

/// Sum of speedups.
pub open spec fn sum_speedup(es: Seq<LocalizationEntry>) -> nat
    decreases es.len(),
{
    if es.len() == 0 {
        0
    } else {
        sum_speedup(es.drop_last()) + speedup(es.last()) as nat
    }
}

/// Maximum hardware-attributable fraction, zero for no entries.
pub open spec fn max_hardware(es: Seq<LocalizationEntry>) -> u64
    decreases es.len(),
{
    if es.len() == 0 {
        0
    } else {
        let m = max_hardware(es.drop_last());
        let h = fraction_of(es.last(), ResidualCategory::HardwareAttributable);
        if h > m {
            h
        } else {
            m
        }
    }
}

/// Average algorithmic gain (integer division), zero for no entries.
pub open spec fn avg_algorithmic(es: Seq<LocalizationEntry>) -> u64 {
    if es.len() == 0 {
        0
    } else {
        (sum_algorithmic(es) / es.len()) as u64
    }
}

/// Whether some entry shows a speedup.
pub open spec fn any_speedup(es: Seq<LocalizationEntry>) -> bool {
    exists|i: int| 0 <= i < es.len() && speedup(#[trigger] es[i]) > 0
}

/// Per-entry noise and unexplained-residual details, in entry order.
pub open spec fn entry_details(es: Seq<LocalizationEntry>, p: PromotionPolicy) -> Seq<
    RejectionDetail,
>
    decreases es.len(),
{
    if es.len() == 0 {
        Seq::empty()
    } else {
        let e = es.last();
        let noise = fraction_of(e, ResidualCategory::MeasurementNoise);
        let unexplained = fraction_of(e, ResidualCategory::Unexplained);
        let d0 = entry_details(es.drop_last(), p);
        let d1 = if noise > p.max_noise_millionths {
            d0.push(
                RejectionDetail::ExcessiveNoise {
                    family: e.hardware_family,
                    noise_millionths: noise,
                    threshold_millionths: p.max_noise_millionths,
                },
            )
        } else {
            d0
        };
        if unexplained > p.max_unexplained_millionths {
            d1.push(
                RejectionDetail::ExcessiveUnexplained {
                    family: e.hardware_family,
                    unexplained_millionths: unexplained,
                    threshold_millionths: p.max_unexplained_millionths,
                },
            )
        } else {
            d1
        }
    }
}

/// Policy-level details for a non-empty board with some speedup.
pub open spec fn policy_details(es: Seq<LocalizationEntry>, p: PromotionPolicy) -> Seq<
    RejectionDetail,
> {
    let fam = family_count_of(es);
    let d1: Seq<RejectionDetail> = if fam < p.min_hardware_families_tested {
        seq![
            RejectionDetail::TooFewFamilies {
                tested: fam as usize,
                required: p.min_hardware_families_tested,
            },
        ]
    } else {
        Seq::empty()
    };
    let d2 = if p.require_arm_and_x64 && !(has_arm(es) && has_x64(es)) {
        d1.push(RejectionDetail::MissingIsaCoverage { has_arm: has_arm(es), has_x64: has_x64(es) })
    } else {
        d1
    };
    let avg = avg_algorithmic(es);
    let d3 = if avg < p.min_algorithmic_gain_millionths {
        d2.push(
            RejectionDetail::AlgorithmicGainTooLow {
                observed_millionths: avg,
                threshold_millionths: p.min_algorithmic_gain_millionths,
            },
        )
    } else {
        d2
    };
    let mh = max_hardware(es);
    if mh > p.max_hardware_attributable_millionths {
        d3.push(
            RejectionDetail::HardwareAttributableTooHigh {
                observed_millionths: mh,
                threshold_millionths: p.max_hardware_attributable_millionths,
            },
        )
    } else {
        d3
    }
}

/// All rejection details `evaluate_promotion` reports.
pub open spec fn promotion_details(es: Seq<LocalizationEntry>, p: PromotionPolicy) -> Seq<
    RejectionDetail,
> {
    if es.len() == 0 {
        seq![RejectionDetail::EmptyBoard]
    } else if !any_speedup(es) {
        seq![RejectionDetail::NoSpeedupObserved]
    } else {
        policy_details(es, p) + entry_details(es, p)
    }
}

/// Whether a detail concerns family coverage.
pub open spec fn is_family_issue(d: RejectionDetail) -> bool {
    d is TooFewFamilies || d is MissingIsaCoverage
}

/// Whether a detail shows hardware dominance.
pub open spec fn is_hw_dominant(d: RejectionDetail) -> bool {
    d is HardwareAttributableTooHigh || d is AlgorithmicGainTooLow
}

/// Verdict for a list of details on a board with entries and speedup.
pub open spec fn classify(ds: Seq<RejectionDetail>) -> PromotionVerdict {
    let fam = exists|i: int| 0 <= i < ds.len() && is_family_issue(#[trigger] ds[i]);
    let hw = exists|i: int| 0 <= i < ds.len() && is_hw_dominant(#[trigger] ds[i]);
    if ds.len() == 0 {
        PromotionVerdict::Promotable
    } else if fam && !hw {
        PromotionVerdict::InsufficientEvidence
    } else if hw {
        PromotionVerdict::HardwareDependent
    } else {
        PromotionVerdict::Rejected
    }
}

/// Verdict `evaluate_promotion` reaches.
pub open spec fn promotion_verdict(es: Seq<LocalizationEntry>, p: PromotionPolicy) -> PromotionVerdict {
    if es.len() == 0 {
        PromotionVerdict::InsufficientEvidence
    } else if !any_speedup(es) {
        PromotionVerdict::Rejected
    } else {
        classify(promotion_details(es, p))
    }
}

/// Union of the required features of all entries.
pub open spec fn required_anywhere(es: Seq<LocalizationEntry>, f: HardwareFeature) -> bool {
    exists|i: int| 0 <= i < es.len() && (#[trigger] es[i]).required_features.has(f)
}

/// Whether `f` is required somewhere but not typical on `family`.
pub open spec fn missing_on(es: Seq<LocalizationEntry>, family: MicroarchFamily, f: HardwareFeature) -> bool {
    required_anywhere(es, f) && !family.typical(f)
}

/// Whether `family` is untested and lacks some required feature.
pub open spec fn reported_unsupported(es: Seq<LocalizationEntry>, family: MicroarchFamily) -> bool {
    !tested(es, family) && exists|f: HardwareFeature| #[trigger] missing_on(es, family, f)
}

/// Families (in declaration order, among the first `k`) reported unsupported.
pub open spec fn unsupported_families(es: Seq<LocalizationEntry>, k: nat) -> Seq<MicroarchFamily>
    decreases k,
{
    if k == 0 {
        Seq::empty()
    } else {
        let prev = unsupported_families(es, (k - 1) as nat);
        let f = MicroarchFamily::of_rank((k - 1) as nat);
        if reported_unsupported(es, f) {
            prev.push(f)
        } else {
            prev
        }
    }
}

/// Board hash input.
pub open spec fn board_seal_input(
    optimization_id: Seq<char>,
    epoch: SecurityEpoch,
    es: Seq<LocalizationEntry>,
) -> Seq<u8> {
    framed_str(SCHEMA_VERSION@) + framed_str(optimization_id) + u64_be(epoch.0) + u64_be(
        es.len() as u64,
    ) + concat_hashes(es.map_values(|e: LocalizationEntry| e.entry_hash))
}

fn push_entry_hashes(buf: &mut Vec<u8>, es: &Vec<LocalizationEntry>)
    ensures
        final(buf)@ == old(buf)@ + concat_hashes(es@.map_values(|e: LocalizationEntry| e.entry_hash)),
{
    let ghost start = buf@;
    let ghost hs = es@.map_values(|e: LocalizationEntry| e.entry_hash);
    let mut i: usize = 0;
    while i < es.len()
        invariant
            i <= es@.len(),
            hs == es@.map_values(|e: LocalizationEntry| e.entry_hash),
            buf@ == start + concat_hashes(hs.take(i as int)),
        decreases es@.len() - i,
    {
        push_bytes(buf, es[i].entry_hash.as_bytes());
        i = i + 1;
        assert(hs.take(i as int).drop_last() =~= hs.take(i - 1));
    }
    assert(hs.take(i as int) =~= hs);
}

// ---------------------------------------------------------------------------
// LocalizationBoard
// ---------------------------------------------------------------------------

/// Collects localization entries for a single optimization and evaluates
/// promotion readiness.
#[derive(Debug, Clone, PartialEq, Eq)]
pub struct LocalizationBoard {
    pub optimization_id: String,
    pub epoch: SecurityEpoch,
    pub entries: Vec<LocalizationEntry>,
    pub policy: PromotionPolicy,
    pub content_hash: ContentHash,
}

impl LocalizationBoard {
    /// Whether the hash matches the contents.
    pub open spec fn sealed(self) -> bool {
        self.content_hash@ == vstd_sha(
            board_seal_input(self.optimization_id@, self.epoch, self.entries@),
        )
    }

    /// Create a new empty board.
    pub fn new(optimization_id: &str, epoch: SecurityEpoch, policy: PromotionPolicy) -> (r: Self)
        ensures
            r.optimization_id@ == optimization_id@,
            r.epoch == epoch,
            r.entries@.len() == 0,
            r.policy == policy,
            r.sealed(),
    {
        let mut board = LocalizationBoard {
            optimization_id: owned(optimization_id),
            epoch,
            entries: Vec::new(),
            policy,
            content_hash: ContentHash::compute(&[]),
        };
        board.seal();
        board
    }

    /// Add a localization entry. Returns false if the board is full.
    pub fn add_entry(&mut self, entry: LocalizationEntry) -> (added: bool)
        ensures
            added == (old(self).entries@.len() < MAX_BOARD_ENTRIES),
            added ==> final(self).entries@ == old(self).entries@.push(entry) && final(self).sealed(),
            !added ==> *final(self) == *old(self),
            final(self).optimization_id == old(self).optimization_id,
            final(self).epoch == old(self).epoch,
            final(self).policy == old(self).policy,
    {
        if self.entries.len() >= MAX_BOARD_ENTRIES {
            return false;
        }
        self.entries.push(entry);
        self.seal();
        true
    }

    /// Number of entries.
    pub fn entry_count(&self) -> (r: usize)
        ensures
            r == self.entries@.len(),
    {
        self.entries.len()
    }

    /// Distinct hardware families represented.
    pub fn distinct_families(&self) -> (r: EnumSet<MicroarchFamily>)
        ensures
            forall|f: MicroarchFamily| #[trigger] r.has(f) == tested(self.entries@, f),
    {
        let mut s = EnumSet::new();
        let mut i: usize = 0;
        while i < self.entries.len()
            invariant
                i <= self.entries@.len(),
                forall|f: MicroarchFamily|
                    #[trigger] s.has(f) == tested(self.entries@.take(i as int), f),
            decreases self.entries@.len() - i,
        {
            s.insert(self.entries[i].hardware_family);
            i = i + 1;
            proof {
                let t = self.entries@.take(i as int);
                let t0 = self.entries@.take(i - 1);
                assert forall|f: MicroarchFamily| #[trigger] s.has(f) == tested(t, f) by {
                    if tested(t0, f) {
                        let k = choose|k: int| 0 <= k < t0.len() && (#[trigger] t0[k]).hardware_family == f;
                        assert(t[k] == t0[k]);
                    }
                    if f == self.entries@[i - 1].hardware_family {
                        assert(t[i - 1].hardware_family == f);
                    }
                    if tested(t, f) {
                        let k = choose|k: int| 0 <= k < t.len() && (#[trigger] t[k]).hardware_family == f;
                        if k < i - 1 {
                            assert(t0[k] == t[k]);
                        }
                    }
                }
            }
        }
        assert(self.entries@.take(i as int) =~= self.entries@);
        s
    }

    /// Number of distinct families.
    pub fn family_count(&self) -> (r: usize)
        ensures
            r == family_count_of(self.entries@),
    {
        let fams = self.distinct_families();
        let mut count: usize = 0;
        let mut i: usize = 0;
        while i < 8
            invariant
                i <= 8,
                count == tested_count(self.entries@, i as nat),
                count <= i,
                forall|f: MicroarchFamily| #[trigger] fams.has(f) == tested(self.entries@, f),
            decreases 8 - i,
        {
            let f = MicroarchFamily::from_rank(i);
            if fams.contains(&f) {
                count = count + 1;
            }
            i = i + 1;
        }
        count
    }

    /// Whether both ARM and x86 families are represented.
    pub fn has_arm_and_x64(&self) -> (r: bool)
        ensures
            r == (has_arm(self.entries@) && has_x64(self.entries@)),
    {
        let (a, x) = self.isa_coverage();
        a && x
    }

    fn isa_coverage(&self) -> (r: (bool, bool))
        ensures
            r.0 == has_arm(self.entries@),
            r.1 == has_x64(self.entries@),
    {
        let mut a = false;
        let mut x = false;
        let mut i: usize = 0;
        while i < self.entries.len()
            invariant
                i <= self.entries@.len(),
                a == exists|j: int| 0 <= j < i && (#[trigger] self.entries@[j]).hardware_family.arm(),
                x == exists|j: int| 0 <= j < i && (#[trigger] self.entries@[j]).hardware_family.x86(),
            decreases self.entries@.len() - i,
        {
            if self.entries[i].hardware_family.is_arm() {
                a = true;
            } else {
                x = true;
            }
            i = i + 1;
        }
        (a, x)
    }

    /// Average algorithmic gain across all entries (millionths).
    pub fn avg_algorithmic_gain(&self) -> (r: u64)
        requires
            sum_algorithmic(self.entries@) <= u64::MAX,
        ensures
            r == avg_algorithmic(self.entries@),
    {
        if self.entries.len() == 0 {
            return 0;
        }
        let mut total: u64 = 0;
        let mut i: usize = 0;
        while i < self.entries.len()
            invariant
                i <= self.entries@.len(),
                sum_algorithmic(self.entries@) <= u64::MAX,
                total == sum_algorithmic(self.entries@.take(i as int)),
            decreases self.entries@.len() - i,
        {
            proof {
                lemma_sum_alg_prefix(self.entries@, i as int + 1);
            }
            assert(self.entries@.take(i + 1).drop_last() =~= self.entries@.take(i as int));
            total = total + self.entries[i].algorithmic_fraction();
            i = i + 1;
        }
        assert(self.entries@.take(i as int) =~= self.entries@);
        total / (self.entries.len() as u64)
    }

    /// Maximum hardware-attributable fraction across all entries (millionths).
    pub fn max_hardware_attributable(&self) -> (r: u64)
        ensures
            r == max_hardware(self.entries@),
    {
        let mut m: u64 = 0;
        let mut i: usize = 0;
        while i < self.entries.len()
            invariant
                i <= self.entries@.len(),
                m == max_hardware(self.entries@.take(i as int)),
            decreases self.entries@.len() - i,
        {
            assert(self.entries@.take(i + 1).drop_last() =~= self.entries@.take(i as int));
            let h = self.entries[i].hardware_fraction();
            if h > m {
                m = h;
            }
            i = i + 1;
        }
        assert(self.entries@.take(i as int) =~= self.entries@);
        m
    }

    /// Average speedup across all entries (millionths).
    pub fn avg_speedup(&self) -> (r: u64)
        requires
            sum_speedup(self.entries@) <= u64::MAX,
        ensures
            r == if self.entries@.len() == 0 {
                0
            } else {
                (sum_speedup(self.entries@) / self.entries@.len()) as u64
            },
    {
        if self.entries.len() == 0 {
            return 0;
        }
        let mut total: u64 = 0;
        let mut i: usize = 0;
        while i < self.entries.len()
            invariant
                i <= self.entries@.len(),
                sum_speedup(self.entries@) <= u64::MAX,
                total == sum_speedup(self.entries@.take(i as int)),
            decreases self.entries@.len() - i,
        {
            proof {
                lemma_sum_speedup_prefix(self.entries@, i as int + 1);
            }
            assert(self.entries@.take(i + 1).drop_last() =~= self.entries@.take(i as int));
            total = total + self.entries[i].speedup_millionths();
            i = i + 1;
        }
        assert(self.entries@.take(i as int) =~= self.entries@);
        total / (self.entries.len() as u64)
    }

    fn required_union(&self) -> (r: EnumSet<HardwareFeature>)
        ensures
            forall|f: HardwareFeature| #[trigger] r.has(f) == required_anywhere(self.entries@, f),
    {
        let mut s: EnumSet<HardwareFeature> = EnumSet::new();
        let mut i: usize = 0;
        while i < self.entries.len()
            invariant
                i <= self.entries@.len(),
                forall|f: HardwareFeature|
                    #[trigger] s.has(f) == required_anywhere(self.entries@.take(i as int), f),
            decreases self.entries@.len() - i,
        {
            let feats = self.entries[i].required_features.to_vec();
            let ghost before = s;
            let mut j: usize = 0;
            while j < feats.len()
                invariant
                    j <= feats@.len(),
                    feats@ == self.entries@[i as int].required_features.members(),
                    forall|f: HardwareFeature|
                        #[trigger] s.has(f) == (before.has(f) || feats@.take(j as int).contains(f)),
                decreases feats@.len() - j,
            {
                s.insert(feats[j]);
                j = j + 1;
                proof {
                    assert forall|f: HardwareFeature|
                        #[trigger] s.has(f) == (before.has(f) || feats@.take(j as int).contains(
                            f,
                        )) by {
                        let t = feats@.take(j as int);
                        let t0 = feats@.take(j - 1);
                        if t0.contains(f) {
                            let k = choose|k: int| 0 <= k < t0.len() && t0[k] == f;
                            assert(t[k] == f);
                        }
                        if f == feats@[j - 1] {
                            assert(t[j - 1] == f);
                        }
                        if t.contains(f) {
                            let k = choose|k: int| 0 <= k < t.len() && t[k] == f;
                            if k < j - 1 {
                                assert(t0[k] == f);
                            }
                        }
                    }
                }
            }
            proof {
                self.entries@[i as int].required_features.lemma_members();
                assert(feats@.take(j as int) =~= feats@);
                let e = self.entries@;
                let t = e.take(i + 1);
                let t0 = e.take(i as int);
                assert forall|f: HardwareFeature|
                    #[trigger] s.has(f) == required_anywhere(t, f) by {
                    if required_anywhere(t0, f) {
                        let k = choose|k: int| 0 <= k < t0.len() && (#[trigger] t0[k]).required_features.has(f);
                        assert(t[k] == t0[k]);
                    }
                    if e[i as int].required_features.has(f) {
                        assert(t[i as int] == e[i as int]);
                    }
                    if required_anywhere(t, f) {
                        let k = choose|k: int| 0 <= k < t.len() && (#[trigger] t[k]).required_features.has(f);
                        if k < i {
                            assert(t0[k] == t[k]);
                        }
                    }
                }
            }
            i = i + 1;
        }
        assert(self.entries@.take(i as int) =~= self.entries@);
        s
    }

    /// Identify untested hardware families that lack some feature required
    /// by some entry, in family declaration order.
    pub fn identify_unsupported_hardware(&self) -> (r: Vec<UnsupportedHardwareEntry>)
        ensures
            r@.map_values(|u: UnsupportedHardwareEntry| u.family) == unsupported_families(
                self.entries@,
                8,
            ),
            forall|i: int|
                0 <= i < r@.len() ==> {
                    &&& forall|f: HardwareFeature| #[trigger]
                        (#[trigger] r@[i]).missing_features.has(f) == missing_on(
                            self.entries@,
                            r@[i].family,
                            f,
                        )
                    &&& r@[i].estimated_regression_millionths == r@[i].missing_features.members().len()
                        * 50_000
                    &&& r@[i].fallback_available == (r@[i].missing_features.members().len() * 2
                        <= count_where(|f: HardwareFeature| required_anywhere(self.entries@, f), 13))
                    &&& r@[i].sealed()
                },
    {
        let tested_fams = self.distinct_families();
        let all_required = self.required_union();
        let all_count = all_required.len();
        proof {
            all_required.lemma_members();
            all_required.lemma_len_count();
            lemma_count_where_ext(
                |x: HardwareFeature| all_required.has(x),
                |f: HardwareFeature| required_anywhere(self.entries@, f),
                13,
            );
        }
        let mut out: Vec<UnsupportedHardwareEntry> = Vec::new();
        let mut k: usize = 0;
        while k < 8
            invariant
                k <= 8,
                all_count == all_required.members().len(),
                all_count == count_where(|f: HardwareFeature| required_anywhere(self.entries@, f), 13),
                all_count <= 13,
                forall|f: MicroarchFamily| #[trigger] tested_fams.has(f) == tested(self.entries@, f),
                forall|f: HardwareFeature|
                    #[trigger] all_required.has(f) == required_anywhere(self.entries@, f),
                out@.map_values(|u: UnsupportedHardwareEntry| u.family) == unsupported_families(
                    self.entries@,
                    k as nat,
                ),
                forall|i: int|
                    0 <= i < out@.len() ==> {
                        &&& forall|f: HardwareFeature| #[trigger]
                            (#[trigger] out@[i]).missing_features.has(f) == missing_on(
                                self.entries@,
                                out@[i].family,
                                f,
                            )
                        &&& out@[i].estimated_regression_millionths
                            == out@[i].missing_features.members().len() * 50_000
                        &&& out@[i].fallback_available == (out@[i].missing_features.members().len()
                            * 2 <= all_count)
                        &&& out@[i].sealed()
                    },
            decreases 8 - k,
        {
            let family = MicroarchFamily::from_rank(k);
            let ghost prev = out@;
            if !tested_fams.contains(&family) {
                let typical = family.typical_features();
                let mut missing: EnumSet<HardwareFeature> = EnumSet::new();
                let req = all_required.to_vec();
                let mut j: usize = 0;
                while j < req.len()
                    invariant
                        j <= req@.len(),
                        req@ == all_required.members(),
                        forall|f: HardwareFeature| #[trigger] typical.has(f) == family.typical(f),
                        forall|f: HardwareFeature|
                            #[trigger] missing.has(f) == (req@.take(j as int).contains(f)
                                && !family.typical(f)),
                    decreases req@.len() - j,
                {
                    if !typical.contains(&req[j]) {
                        missing.insert(req[j]);
                    }
                    j = j + 1;
                    proof {
                        assert forall|f: HardwareFeature|
                            #[trigger] missing.has(f) == (req@.take(j as int).contains(f)
                                && !family.typical(f)) by {
                            let t = req@.take(j as int);
                            let t0 = req@.take(j - 1);
                            if t0.contains(f) {
                                let q = choose|q: int| 0 <= q < t0.len() && t0[q] == f;
                                assert(t[q] == f);
                            }
                            if f == req@[j - 1] {
                                assert(t[j - 1] == f);
                            }
                            if t.contains(f) {
                                let q = choose|q: int| 0 <= q < t.len() && t[q] == f;
                                if q < j - 1 {
                                    assert(t0[q] == f);
                                }
                            }
                        }
                    }
                }
                assert(req@.take(j as int) =~= req@);
                proof {
                    assert forall|f: HardwareFeature|
                        #[trigger] missing.has(f) == missing_on(self.entries@, family, f) by {
                        all_required.lemma_members();
                        assert(req@.contains(f) == all_required.has(f));
                    }
                    missing.lemma_members();
                }
                let n_missing = missing.len();
                if n_missing > 0 {
                    proof {
                        let f0 = missing.members()[0];
                        assert(missing.members().contains(f0));
                        assert(missing.has(f0));
                        assert(missing_on(self.entries@, family, f0));
                        assert(reported_unsupported(self.entries@, family));
                    }
                    let regression = (n_missing as u64) * 50_000;
                    let fallback = n_missing * 2 <= all_count;
                    out.push(UnsupportedHardwareEntry::new(family, missing, regression, fallback));
                } else {
                    proof {
                        assert forall|f: HardwareFeature| !#[trigger] missing_on(self.entries@, family, f) by {
                            if missing_on(self.entries@, family, f) {
                                assert(missing.has(f));
                                assert(missing.members().contains(f));
                            }
                        }
                    }
                }
            }
            k = k + 1;
            proof {
                MicroarchFamily::lemma_of_rank((k - 1) as nat);
                assert(out@.map_values(|u: UnsupportedHardwareEntry| u.family)
                    =~= unsupported_families(self.entries@, k as nat));
            }
        }
        out
    }

    /// Evaluate promotion readiness against the configured policy.
    pub fn evaluate_promotion(&self) -> (r: (PromotionVerdict, Vec<RejectionDetail>))
        requires
            any_speedup(self.entries@) ==> sum_algorithmic(self.entries@) <= u64::MAX,
        ensures
            r.1@ == promotion_details(self.entries@, self.policy),
            r.0 == promotion_verdict(self.entries@, self.policy),
    {
        let mut details: Vec<RejectionDetail> = Vec::new();
        if self.entries.len() == 0 {
            details.push(RejectionDetail::EmptyBoard);
            return (PromotionVerdict::InsufficientEvidence, details);
        }
        let mut has_speedup = false;
        let mut i: usize = 0;
        while i < self.entries.len()
            invariant
                i <= self.entries@.len(),
                has_speedup == exists|j: int| 0 <= j < i && speedup(#[trigger] self.entries@[j]) > 0,
            decreases self.entries@.len() - i,
        {
            if self.entries[i].speedup_millionths() > 0 {
                has_speedup = true;
            }
            i = i + 1;
        }
        if !has_speedup {
            details.push(RejectionDetail::NoSpeedupObserved);
            return (PromotionVerdict::Rejected, details);
        }
        let fam_count = self.family_count();
        if fam_count < self.policy.min_hardware_families_tested {
            details.push(
                RejectionDetail::TooFewFamilies {
                    tested: fam_count,
                    required: self.policy.min_hardware_families_tested,
                },
            );
        }
        if self.policy.require_arm_and_x64 {
            let (has_arm_f, has_x64_f) = self.isa_coverage();
            if !has_arm_f || !has_x64_f {
                details.push(
                    RejectionDetail::MissingIsaCoverage { has_arm: has_arm_f, has_x64: has_x64_f },
                );
            }
        }
        let avg_algo = self.avg_algorithmic_gain();
        if avg_algo < self.policy.min_algorithmic_gain_millionths {
            details.push(
                RejectionDetail::AlgorithmicGainTooLow {
                    observed_millionths: avg_algo,
                    threshold_millionths: self.policy.min_algorithmic_gain_millionths,
                },
            );
        }
        let max_hw = self.max_hardware_attributable();
        if max_hw > self.policy.max_hardware_attributable_millionths {
            details.push(
                RejectionDetail::HardwareAttributableTooHigh {
                    observed_millionths: max_hw,
                    threshold_millionths: self.policy.max_hardware_attributable_millionths,
                },
            );
        }
        assert(details@ =~= policy_details(self.entries@, self.policy));
        let ghost head = details@;
        let mut k: usize = 0;
        while k < self.entries.len()
            invariant
                k <= self.entries@.len(),
                details@ == head + entry_details(self.entries@.take(k as int), self.policy),
            decreases self.entries@.len() - k,
        {
            let e = &self.entries[k];
            let noise = match e.residual_breakdown.get(&ResidualCategory::MeasurementNoise) {
                Some(v) => v,
                None => 0,
            };
            if noise > self.policy.max_noise_millionths {
                details.push(
                    RejectionDetail::ExcessiveNoise {
                        family: e.hardware_family,
                        noise_millionths: noise,
                        threshold_millionths: self.policy.max_noise_millionths,
                    },
                );
            }
            let unexplained = match e.residual_breakdown.get(&ResidualCategory::Unexplained) {
                Some(v) => v,
                None => 0,
            };
            if unexplained > self.policy.max_unexplained_millionths {
                details.push(
                    RejectionDetail::ExcessiveUnexplained {
                        family: e.hardware_family,
                        unexplained_millionths: unexplained,
                        threshold_millionths: self.policy.max_unexplained_millionths,
                    },
                );
            }
            k = k + 1;
            assert(self.entries@.take(k as int).drop_last() =~= self.entries@.take(k - 1));
            assert(details@ =~= head + entry_details(self.entries@.take(k as int), self.policy));
        }
        assert(self.entries@.take(k as int) =~= self.entries@);
        let verdict = classify_details(&details);
        (verdict, details)
    }

    /// Generate a full localization report.
    pub fn generate_report(&self) -> (r: LocalizationReport)
        requires
            sum_algorithmic(self.entries@) <= u64::MAX,
        ensures
            r.optimization_id@ == self.optimization_id@,
            r.epoch == self.epoch,
            r.verdict == promotion_verdict(self.entries@, self.policy),
            r.rejection_details@ == promotion_details(self.entries@, self.policy),
            r.entries@ == self.entries@,
            r.unsupported_hardware@.map_values(|u: UnsupportedHardwareEntry| u.family)
                == unsupported_families(self.entries@, 8),
            r.algorithmic_gain_millionths == avg_algorithmic(self.entries@),
            r.hardware_attributable_millionths == max_hardware(self.entries@),
            r.sealed(),
    {
        let (verdict, rejection_details) = self.evaluate_promotion();
        let unsupported_hardware = self.identify_unsupported_hardware();
        LocalizationReport::new(
            copy_str(&self.optimization_id),
            self.epoch,
            verdict,
            rejection_details,
            self.entries.clone(),
            unsupported_hardware,
            self.avg_algorithmic_gain(),
            self.max_hardware_attributable(),
        )
    }

    /// Recompute content hash.
    pub fn seal(&mut self)
        ensures
            final(self).optimization_id == old(self).optimization_id,
            final(self).epoch == old(self).epoch,
            final(self).entries == old(self).entries,
            final(self).policy == old(self).policy,
            final(self).sealed(),
    {
        let mut buf: Vec<u8> = Vec::new();
        push_framed_str(&mut buf, SCHEMA_VERSION);
        push_framed_str(&mut buf, self.optimization_id.as_str());
        push_u64_be(&mut buf, self.epoch.as_u64());
        push_u64_be(&mut buf, self.entries.len() as u64);
        push_entry_hashes(&mut buf, &self.entries);
        assert(buf@ =~= board_seal_input(self.optimization_id@, self.epoch, self.entries@));
        self.content_hash = ContentHash::compute(buf.as_slice());
    }

    /// Display rendering `LocalizationBoard(opt=..., entries=n, families=m)`.
    pub fn to_string(&self) -> (r: String)
        ensures
            r@ == "LocalizationBoard(opt="@ + self.optimization_id@ + ", entries="@ + decimal(
                self.entries@.len(),
            ) + ", families="@ + decimal(family_count_of(self.entries@)) + ")"@,
    {
        let mut s = owned("LocalizationBoard(opt=");
        s.append(self.optimization_id.as_str());
        s.append(", entries=");
        s.append(u64_to_decimal(self.entries.len() as u64).as_str());
        s.append(", families=");
        s.append(u64_to_decimal(self.family_count() as u64).as_str());
        s.append(")");
        s
    }
}

fn copy_str(s: &String) -> (r: String)
    ensures
        r@ == s@,
{
    s.clone()
}

proof fn lemma_sum_alg_prefix(es: Seq<LocalizationEntry>, n: int)
    requires
        0 <= n <= es.len(),
    ensures
        sum_algorithmic(es.take(n)) <= sum_algorithmic(es),
    decreases es.len(),
{
    if n < es.len() {
        assert(es.drop_last().take(n) =~= es.take(n));
        lemma_sum_alg_prefix(es.drop_last(), n);
    } else {
        assert(es.take(n) =~= es);
    }
}

proof fn lemma_sum_speedup_prefix(es: Seq<LocalizationEntry>, n: int)
    requires
        0 <= n <= es.len(),
    ensures
        sum_speedup(es.take(n)) <= sum_speedup(es),
    decreases es.len(),
{
    if n < es.len() {
        assert(es.drop_last().take(n) =~= es.take(n));
        lemma_sum_speedup_prefix(es.drop_last(), n);
    } else {
        assert(es.take(n) =~= es);
    }
}

fn classify_details(ds: &Vec<RejectionDetail>) -> (r: PromotionVerdict)
    ensures
        r == classify(ds@),
{
    let mut fam = false;
    let mut hw = false;
    let mut i: usize = 0;
    while i < ds.len()
        invariant
            i <= ds@.len(),
            fam == exists|j: int| 0 <= j < i && is_family_issue(#[trigger] ds@[j]),
            hw == exists|j: int| 0 <= j < i && is_hw_dominant(#[trigger] ds@[j]),
        decreases ds@.len() - i,
    {
        match ds[i] {
            RejectionDetail::TooFewFamilies { .. } | RejectionDetail::MissingIsaCoverage { .. } => {
                fam = true;
            },
            RejectionDetail::HardwareAttributableTooHigh { .. }
            | RejectionDetail::AlgorithmicGainTooLow { .. } => {
                hw = true;
            },
            _ => {},
        }
        i = i + 1;
    }
    if ds.len() == 0 {
        PromotionVerdict::Promotable
    } else if fam && !hw {
        PromotionVerdict::InsufficientEvidence
    } else if hw {
        PromotionVerdict::HardwareDependent
    } else {
        PromotionVerdict::Rejected
    }
}

// ---------------------------------------------------------------------------
// LocalizationReport
// ---------------------------------------------------------------------------

/// Families of the unsupported entries whose fallback flag is `want`, in order.
pub open spec fn families_with_fallback(us: Seq<UnsupportedHardwareEntry>, want: bool) -> Seq<
    MicroarchFamily,
>
    decreases us.len(),
{
    if us.len() == 0 {
        Seq::empty()
    } else {
        let prev = families_with_fallback(us.drop_last(), want);
        if us.last().fallback_available == want {
            prev.push(us.last().family)
        } else {
            prev
        }
    }
}

/// Auditable report from a localization residual evaluation.
#[derive(Debug, Clone, PartialEq, Eq)]
pub struct LocalizationReport {
    pub schema_version: String,
    pub optimization_id: String,
    pub epoch: SecurityEpoch,
    pub verdict: PromotionVerdict,
    pub rejection_details: Vec<RejectionDetail>,
    pub entries: Vec<LocalizationEntry>,
    pub unsupported_hardware: Vec<UnsupportedHardwareEntry>,
    pub algorithmic_gain_millionths: u64,
    pub hardware_attributable_millionths: u64,
    pub content_hash: ContentHash,
}

/// Report hash input.
pub open spec fn report_seal_input(r: LocalizationReport) -> Seq<u8> {
    framed_str(SCHEMA_VERSION@) + framed_str(r.optimization_id@) + u64_be(r.epoch.0) + framed_str(
        r.verdict.name(),
    ) + u64_be(r.entries@.len() as u64) + concat_hashes(
        r.entries@.map_values(|e: LocalizationEntry| e.entry_hash),
    ) + u64_be(r.unsupported_hardware@.len() as u64) + concat_hashes(
        r.unsupported_hardware@.map_values(|u: UnsupportedHardwareEntry| u.content_hash),
    ) + u64_be(r.algorithmic_gain_millionths) + u64_be(r.hardware_attributable_millionths)
}

impl LocalizationReport {
    /// Whether the hash matches the contents.
    pub open spec fn sealed(self) -> bool {
        self.content_hash@ == vstd_sha(report_seal_input(self))
    }

    /// Create a new report with computed hash.
    pub fn new(
        optimization_id: String,
        epoch: SecurityEpoch,
        verdict: PromotionVerdict,
        rejection_details: Vec<RejectionDetail>,
        entries: Vec<LocalizationEntry>,
        unsupported_hardware: Vec<UnsupportedHardwareEntry>,
        algorithmic_gain_millionths: u64,
        hardware_attributable_millionths: u64,
    ) -> (r: Self)
        ensures
            r.schema_version@ == SCHEMA_VERSION@,
            r.optimization_id == optimization_id,
            r.epoch == epoch,
            r.verdict == verdict,
            r.rejection_details == rejection_details,
            r.entries == entries,
            r.unsupported_hardware == unsupported_hardware,
            r.algorithmic_gain_millionths == algorithmic_gain_millionths,
            r.hardware_attributable_millionths == hardware_attributable_millionths,
            r.sealed(),
    {
        let mut report = LocalizationReport {
            schema_version: owned(SCHEMA_VERSION),
            optimization_id,
            epoch,
            verdict,
            rejection_details,
            entries,
            unsupported_hardware,
            algorithmic_gain_millionths,
            hardware_attributable_millionths,
            content_hash: ContentHash::compute(&[]),
        };
        report.seal();
        report
    }

    /// Recompute content hash.
    pub fn seal(&mut self)
        ensures
            final(self).schema_version == old(self).schema_version,
            final(self).optimization_id == old(self).optimization_id,
            final(self).epoch == old(self).epoch,
            final(self).verdict == old(self).verdict,
            final(self).rejection_details == old(self).rejection_details,
            final(self).entries == old(self).entries,
            final(self).unsupported_hardware == old(self).unsupported_hardware,
            final(self).algorithmic_gain_millionths == old(self).algorithmic_gain_millionths,
            final(self).hardware_attributable_millionths == old(
                self,
            ).hardware_attributable_millionths,
            final(self).sealed(),
    {
        let mut buf: Vec<u8> = Vec::new();
        push_framed_str(&mut buf, SCHEMA_VERSION);
        push_framed_str(&mut buf, self.optimization_id.as_str());
        push_u64_be(&mut buf, self.epoch.as_u64());
        push_framed_str(&mut buf, self.verdict.as_str());
        push_u64_be(&mut buf, self.entries.len() as u64);
        push_entry_hashes(&mut buf, &self.entries);
        push_u64_be(&mut buf, self.unsupported_hardware.len() as u64);
        let ghost start = buf@;
        let ghost hs = self.unsupported_hardware@.map_values(
            |u: UnsupportedHardwareEntry| u.content_hash,
        );
        let mut i: usize = 0;
        while i < self.unsupported_hardware.len()
            invariant
                i <= self.unsupported_hardware@.len(),
                hs == self.unsupported_hardware@.map_values(
                    |u: UnsupportedHardwareEntry| u.content_hash,
                ),
                buf@ == start + concat_hashes(hs.take(i as int)),
            decreases self.unsupported_hardware@.len() - i,
        {
            push_bytes(&mut buf, self.unsupported_hardware[i].content_hash.as_bytes());
            i = i + 1;
            assert(hs.take(i as int).drop_last() =~= hs.take(i - 1));
        }
        assert(hs.take(i as int) =~= hs);
        push_u64_be(&mut buf, self.algorithmic_gain_millionths);
        push_u64_be(&mut buf, self.hardware_attributable_millionths);
        assert(buf@ =~= report_seal_input(*self));
        self.content_hash = ContentHash::compute(buf.as_slice());
    }

    /// Total entries in the report.
    pub fn entry_count(&self) -> (r: usize)
        ensures
            r == self.entries@.len(),
    {
        self.entries.len()
    }

    /// Number of unsupported hardware families.
    pub fn unsupported_count(&self) -> (r: usize)
        ensures
            r == self.unsupported_hardware@.len(),
    {
        self.unsupported_hardware.len()
    }

    /// Whether promotion was granted.
    pub fn is_promotable(&self) -> (r: bool)
        ensures
            r == (self.verdict == PromotionVerdict::Promotable),
    {
        self.verdict.is_pass()
    }

    /// Whether any unsupported hardware was found.
    pub fn has_unsupported_hardware(&self) -> (r: bool)
        ensures
            r == (self.unsupported_hardware@.len() > 0),
    {
        self.unsupported_hardware.len() > 0
    }

    /// Families with fallback available, in report order.
    pub fn fallback_families(&self) -> (r: Vec<MicroarchFamily>)
        ensures
            r@ == families_with_fallback(self.unsupported_hardware@, true),
    {
        self.families_by_fallback(true)
    }

    /// Families without fallback (high risk), in report order.
    pub fn no_fallback_families(&self) -> (r: Vec<MicroarchFamily>)
        ensures
            r@ == families_with_fallback(self.unsupported_hardware@, false),
    {
        self.families_by_fallback(false)
    }

    fn families_by_fallback(&self, want: bool) -> (r: Vec<MicroarchFamily>)
        ensures
            r@ == families_with_fallback(self.unsupported_hardware@, want),
    {
        let mut out: Vec<MicroarchFamily> = Vec::new();
        let mut i: usize = 0;
        while i < self.unsupported_hardware.len()
            invariant
                i <= self.unsupported_hardware@.len(),
                out@ == families_with_fallback(self.unsupported_hardware@.take(i as int), want),
            decreases self.unsupported_hardware@.len() - i,
        {
            let u = &self.unsupported_hardware[i];
            if u.fallback_available == want {
                out.push(u.family);
            }
            i = i + 1;
            assert(self.unsupported_hardware@.take(i as int).drop_last()
                =~= self.unsupported_hardware@.take(i - 1));
        }
        assert(self.unsupported_hardware@.take(i as int) =~= self.unsupported_hardware@);
        out
    }

    /// Display rendering `LocalizationReport(opt=..., verdict=..., entries=n, unsupported=m)`.
    pub fn to_string(&self) -> (r: String)
        ensures
            r@ == "LocalizationReport(opt="@ + self.optimization_id@ + ", verdict="@
                + self.verdict.name() + ", entries="@ + decimal(self.entries@.len())
                + ", unsupported="@ + decimal(self.unsupported_hardware@.len()) + ")"@,
    {
        let mut s = owned("LocalizationReport(opt=");
        s.append(self.optimization_id.as_str());
        s.append(", verdict=");
        s.append(self.verdict.as_str());
        s.append(", entries=");
        s.append(u64_to_decimal(self.entries.len() as u64).as_str());
        s.append(", unsupported=");
        s.append(u64_to_decimal(self.unsupported_hardware.len() as u64).as_str());
        s.append(")");
        s
    }
}


// ---------------------------------------------------------------------------
// Laws
// ---------------------------------------------------------------------------

proof fn lemma_entry_details_empty(es: Seq<LocalizationEntry>, p: PromotionPolicy)
    requires
        entry_details(es, p).len() == 0,
    ensures
        forall|i: int|
            0 <= i < es.len() ==> fraction_of(#[trigger] es[i], ResidualCategory::MeasurementNoise)
                <= p.max_noise_millionths && fraction_of(es[i], ResidualCategory::Unexplained)
                <= p.max_unexplained_millionths,
    decreases es.len(),
{
    if es.len() > 0 {
        let e = es.last();
        let d0 = entry_details(es.drop_last(), p);
        let noise = fraction_of(e, ResidualCategory::MeasurementNoise);
        let unexplained = fraction_of(e, ResidualCategory::Unexplained);
        let d1 = if noise > p.max_noise_millionths {
            d0.push(
                RejectionDetail::ExcessiveNoise {
                    family: e.hardware_family,
                    noise_millionths: noise,
                    threshold_millionths: p.max_noise_millionths,
                },
            )
        } else {
            d0
        };
        assert(d1.len() >= d0.len());
        lemma_entry_details_empty(es.drop_last(), p);
        assert forall|i: int| 0 <= i < es.len() implies fraction_of(#[trigger] es[i], ResidualCategory::MeasurementNoise)
            <= p.max_noise_millionths && fraction_of(es[i], ResidualCategory::Unexplained)
            <= p.max_unexplained_millionths by {
            if i < es.len() - 1 {
                assert(es[i] == es.drop_last()[i]);
            }
        }
    }
}

/// A board is promotable exactly when evaluation reports no rejection
/// detail; and then the gain that transports is real: the board has
/// entries, some speedup, enough hardware families (with both ARM and x64
/// when the policy asks), an average algorithmic gain at least the minimum,
/// no hardware-attributable share above the maximum, and no entry with
/// excess noise or unexplained residual.
pub proof fn law_promotable_means_algorithmic(es: Seq<LocalizationEntry>, p: PromotionPolicy)
    ensures
        (promotion_verdict(es, p) == PromotionVerdict::Promotable) <==> (es.len() > 0 && any_speedup(es)
            && promotion_details(es, p).len() == 0),
        promotion_verdict(es, p) == PromotionVerdict::Promotable ==> {
            &&& family_count_of(es) >= p.min_hardware_families_tested
            &&& (p.require_arm_and_x64 ==> has_arm(es) && has_x64(es))
            &&& avg_algorithmic(es) >= p.min_algorithmic_gain_millionths
            &&& max_hardware(es) <= p.max_hardware_attributable_millionths
            &&& forall|i: int|
                0 <= i < es.len() ==> fraction_of(#[trigger] es[i], ResidualCategory::MeasurementNoise)
                    <= p.max_noise_millionths && fraction_of(es[i], ResidualCategory::Unexplained)
                    <= p.max_unexplained_millionths
        },
{
    if es.len() > 0 && any_speedup(es) {
        let ds = promotion_details(es, p);
        let pd = policy_details(es, p);
        let ed = entry_details(es, p);
        assert(ds == pd + ed);
        if ds.len() == 0 {
            assert(pd.len() == 0);
            assert(ed.len() == 0);
            lemma_entry_details_empty(es, p);
        }
    }
}

/// Per-entry details are only about noise and unexplained residuals.
proof fn lemma_entry_detail_kinds(es: Seq<LocalizationEntry>, p: PromotionPolicy)
    ensures
        forall|i: int|
            0 <= i < entry_details(es, p).len() ==> (#[trigger] entry_details(es, p)[i]) is ExcessiveNoise
                || entry_details(es, p)[i] is ExcessiveUnexplained,
    decreases es.len(),
{
    if es.len() > 0 {
        lemma_entry_detail_kinds(es.drop_last(), p);
    }
}

/// On a board with entries and some speedup, each policy-level detail is
/// reported exactly when its condition holds: too few families when fewer
/// families than the minimum were tested; missing ISA coverage when both
/// ISAs are required and one is absent; algorithmic gain too low when the
/// average algorithmic gain is below the minimum; hardware-attributable too
/// high when the largest hardware share exceeds the maximum.  Every other
/// detail concerns one entry's noise or unexplained residual.
pub proof fn law_promotion_detail_conditions(es: Seq<LocalizationEntry>, p: PromotionPolicy)
    requires
        es.len() > 0,
        any_speedup(es),
    ensures
        ({
            let ds = promotion_details(es, p);
            &&& (exists|i: int| 0 <= i < ds.len() && #[trigger] ds[i] is TooFewFamilies) <==> family_count_of(es)
                < p.min_hardware_families_tested
            &&& (exists|i: int| 0 <= i < ds.len() && #[trigger] ds[i] is MissingIsaCoverage) <==> (
            p.require_arm_and_x64 && !(has_arm(es) && has_x64(es)))
            &&& (exists|i: int| 0 <= i < ds.len() && #[trigger] ds[i] is AlgorithmicGainTooLow) <==> avg_algorithmic(es)
                < p.min_algorithmic_gain_millionths
            &&& (exists|i: int| 0 <= i < ds.len() && #[trigger] ds[i] is HardwareAttributableTooHigh) <==> max_hardware(
                es,
            ) > p.max_hardware_attributable_millionths
            &&& forall|i: int|
                0 <= i < ds.len() ==> (#[trigger] ds[i]) is TooFewFamilies || ds[i] is MissingIsaCoverage
                    || ds[i] is AlgorithmicGainTooLow || ds[i] is HardwareAttributableTooHigh
                    || ds[i] is ExcessiveNoise || ds[i] is ExcessiveUnexplained
        }),
{
    let ds = promotion_details(es, p);
    let pd = policy_details(es, p);
    let ed = entry_details(es, p);
    assert(ds == pd + ed);
    lemma_entry_detail_kinds(es, p);
    assert forall|i: int| pd.len() <= i < ds.len() implies (#[trigger] ds[i]) is ExcessiveNoise
        || ds[i] is ExcessiveUnexplained by {
        assert(ds[i] == ed[i - pd.len()]);
    }
    assert forall|i: int| 0 <= i < pd.len() implies (#[trigger] ds[i]) == pd[i] by {}
    let fam = family_count_of(es);
    let d1: Seq<RejectionDetail> = if fam < p.min_hardware_families_tested {
        seq![RejectionDetail::TooFewFamilies { tested: fam as usize, required: p.min_hardware_families_tested }]
    } else {
        Seq::empty()
    };
    let d2 = if p.require_arm_and_x64 && !(has_arm(es) && has_x64(es)) {
        d1.push(RejectionDetail::MissingIsaCoverage { has_arm: has_arm(es), has_x64: has_x64(es) })
    } else {
        d1
    };
    let avg = avg_algorithmic(es);
    let d3 = if avg < p.min_algorithmic_gain_millionths {
        d2.push(
            RejectionDetail::AlgorithmicGainTooLow {
                observed_millionths: avg,
                threshold_millionths: p.min_algorithmic_gain_millionths,
            },
        )
    } else {
        d2
    };
    assert forall|i: int| 0 <= i < d1.len() implies (#[trigger] d1[i]) is TooFewFamilies by {}
    assert forall|i: int| 0 <= i < d2.len() implies (#[trigger] d2[i]) is TooFewFamilies
        || d2[i] is MissingIsaCoverage by {
        if i < d1.len() {
            assert(d2[i] == d1[i]);
        }
    }
    assert forall|i: int| 0 <= i < d3.len() implies (#[trigger] d3[i]) is TooFewFamilies
        || d3[i] is MissingIsaCoverage || d3[i] is AlgorithmicGainTooLow by {
        if i < d2.len() {
            assert(d3[i] == d2[i]);
        }
    }
    assert forall|i: int| 0 <= i < pd.len() implies (#[trigger] pd[i]) is TooFewFamilies
        || pd[i] is MissingIsaCoverage || pd[i] is AlgorithmicGainTooLow
        || pd[i] is HardwareAttributableTooHigh by {
        if i < d3.len() {
            assert(pd[i] == d3[i]);
        }
    }
    if fam < p.min_hardware_families_tested {
        assert(ds[0] is TooFewFamilies);
    }
    if p.require_arm_and_x64 && !(has_arm(es) && has_x64(es)) {
        assert(ds[d1.len() as int] is MissingIsaCoverage);
    }
    if avg < p.min_algorithmic_gain_millionths {
        assert(ds[d2.len() as int] is AlgorithmicGainTooLow);
    }
    if max_hardware(es) > p.max_hardware_attributable_millionths {
        assert(ds[d3.len() as int] is HardwareAttributableTooHigh);
    }
}

/// The noise detail reported for an entry whose noise is too high.
pub open spec fn noise_detail_of(e: LocalizationEntry, p: PromotionPolicy) -> RejectionDetail {
    RejectionDetail::ExcessiveNoise {
        family: e.hardware_family,
        noise_millionths: fraction_of(e, ResidualCategory::MeasurementNoise),
        threshold_millionths: p.max_noise_millionths,
    }
}

/// The unexplained-residual detail reported for an entry whose
/// unexplained share is too high.
pub open spec fn unexplained_detail_of(e: LocalizationEntry, p: PromotionPolicy) -> RejectionDetail {
    RejectionDetail::ExcessiveUnexplained {
        family: e.hardware_family,
        unexplained_millionths: fraction_of(e, ResidualCategory::Unexplained),
        threshold_millionths: p.max_unexplained_millionths,
    }
}

/// Whether an entry's noise exceeds the policy maximum.
pub open spec fn too_noisy(e: LocalizationEntry, p: PromotionPolicy) -> bool {
    fraction_of(e, ResidualCategory::MeasurementNoise) > p.max_noise_millionths
}

/// Whether an entry's unexplained share exceeds the policy maximum.
pub open spec fn too_unexplained(e: LocalizationEntry, p: PromotionPolicy) -> bool {
    fraction_of(e, ResidualCategory::Unexplained) > p.max_unexplained_millionths
}

/// Number of noise details.
pub open spec fn noise_details(ds: Seq<RejectionDetail>) -> nat
    decreases ds.len(),
{
    if ds.len() == 0 {
        0
    } else {
        noise_details(ds.drop_last()) + if ds.last() is ExcessiveNoise {
            1nat
        } else {
            0nat
        }
    }
}

/// Number of unexplained-residual details.
pub open spec fn unexplained_details(ds: Seq<RejectionDetail>) -> nat
    decreases ds.len(),
{
    if ds.len() == 0 {
        0
    } else {
        unexplained_details(ds.drop_last()) + if ds.last() is ExcessiveUnexplained {
            1nat
        } else {
            0nat
        }
    }
}

/// Number of entries that are too noisy.
pub open spec fn noisy_entries(es: Seq<LocalizationEntry>, p: PromotionPolicy) -> nat
    decreases es.len(),
{
    if es.len() == 0 {
        0
    } else {
        noisy_entries(es.drop_last(), p) + if too_noisy(es.last(), p) {
            1nat
        } else {
            0nat
        }
    }
}

/// Number of entries whose unexplained share is too high.
pub open spec fn unexplained_entries(es: Seq<LocalizationEntry>, p: PromotionPolicy) -> nat
    decreases es.len(),
{
    if es.len() == 0 {
        0
    } else {
        unexplained_entries(es.drop_last(), p) + if too_unexplained(es.last(), p) {
            1nat
        } else {
            0nat
        }
    }
}

/// The detail counts add over a concatenation.
proof fn lemma_detail_counts_concat(a: Seq<RejectionDetail>, b: Seq<RejectionDetail>)
    ensures
        noise_details(a + b) == noise_details(a) + noise_details(b),
        unexplained_details(a + b) == unexplained_details(a) + unexplained_details(b),
    decreases b.len(),
{
    if b.len() > 0 {
        lemma_detail_counts_concat(a, b.drop_last());
        assert((a + b).drop_last() =~= a + b.drop_last());
    }
}

/// Details of other kinds count as neither.
proof fn lemma_detail_counts_zero(ds: Seq<RejectionDetail>)
    requires
        forall|i: int| 0 <= i < ds.len() ==> !((#[trigger] ds[i]) is ExcessiveNoise) && !(ds[i] is ExcessiveUnexplained),
    ensures
        noise_details(ds) == 0,
        unexplained_details(ds) == 0,
    decreases ds.len(),
{
    if ds.len() > 0 {
        assert(ds.last() == ds[ds.len() - 1]);
        lemma_detail_counts_zero(ds.drop_last());
    }
}

/// Per-entry details: each too noisy (too unexplained) entry contributes
/// exactly its detail, and every such detail comes from such an entry.
proof fn lemma_entry_details_per_entry(es: Seq<LocalizationEntry>, p: PromotionPolicy)
    ensures
        ({
            let ed = entry_details(es, p);
            &&& noise_details(ed) == noisy_entries(es, p)
            &&& unexplained_details(ed) == unexplained_entries(es, p)
            &&& forall|i: int| 0 <= i < es.len() && too_noisy(#[trigger] es[i], p) ==> ed.contains(noise_detail_of(es[i], p))
            &&& forall|i: int|
                0 <= i < es.len() && too_unexplained(#[trigger] es[i], p) ==> ed.contains(unexplained_detail_of(es[i], p))
            &&& forall|j: int|
                0 <= j < ed.len() && (#[trigger] ed[j]) is ExcessiveNoise ==> exists|i: int|
                    0 <= i < es.len() && too_noisy(#[trigger] es[i], p) && ed[j] == noise_detail_of(es[i], p)
            &&& forall|j: int|
                0 <= j < ed.len() && (#[trigger] ed[j]) is ExcessiveUnexplained ==> exists|i: int|
                    0 <= i < es.len() && too_unexplained(#[trigger] es[i], p) && ed[j] == unexplained_detail_of(
                        es[i],
                        p,
                    )
        }),
    decreases es.len(),
{
    if es.len() > 0 {
        let pre = es.drop_last();
        lemma_entry_details_per_entry(pre, p);
        let e = es.last();
        let last: int = es.len() - 1;
        assert(es[last] == e);
        let d0 = entry_details(pre, p);
        let d1 = if too_noisy(e, p) {
            d0.push(noise_detail_of(e, p))
        } else {
            d0
        };
        let ed = entry_details(es, p);
        assert(ed == if too_unexplained(e, p) {
            d1.push(unexplained_detail_of(e, p))
        } else {
            d1
        });
        if too_noisy(e, p) {
            assert(d1.drop_last() =~= d0);
        }
        if too_unexplained(e, p) {
            assert(ed.drop_last() =~= d1);
        }
        assert(noise_details(d1) == noise_details(d0) + if too_noisy(e, p) { 1nat } else { 0nat });
        assert(unexplained_details(d1) == unexplained_details(d0));
        assert(noise_details(ed) == noise_details(d1));
        assert(unexplained_details(ed) == unexplained_details(d1) + if too_unexplained(e, p) {
            1nat
        } else {
            0nat
        });
        assert(noisy_entries(es, p) == noisy_entries(pre, p) + if too_noisy(e, p) { 1nat } else { 0nat });
        assert(unexplained_entries(es, p) == unexplained_entries(pre, p) + if too_unexplained(e, p) {
            1nat
        } else {
            0nat
        });
        assert forall|j: int| 0 <= j < d0.len() implies ed[j] == d0[j] by {
            if too_noisy(e, p) {
                assert(d1[j] == d0[j]);
            }
        }
        assert forall|i: int| 0 <= i < es.len() && too_noisy(#[trigger] es[i], p) implies ed.contains(
            noise_detail_of(es[i], p),
        ) by {
            if i < last {
                assert(pre[i] == es[i]);
                let j = choose|j: int| 0 <= j < d0.len() && d0[j] == noise_detail_of(pre[i], p);
                assert(ed[j] == d0[j]);
            } else {
                assert(ed[d0.len() as int] == d1[d0.len() as int]);
            }
        }
        assert forall|i: int| 0 <= i < es.len() && too_unexplained(#[trigger] es[i], p) implies ed.contains(
            unexplained_detail_of(es[i], p),
        ) by {
            if i < last {
                assert(pre[i] == es[i]);
                let j = choose|j: int| 0 <= j < d0.len() && d0[j] == unexplained_detail_of(pre[i], p);
                assert(ed[j] == d0[j]);
            } else {
                assert(ed[d1.len() as int] == unexplained_detail_of(e, p));
            }
        }
        assert forall|j: int| 0 <= j < ed.len() && (#[trigger] ed[j]) is ExcessiveNoise implies exists|i: int|
            0 <= i < es.len() && too_noisy(#[trigger] es[i], p) && ed[j] == noise_detail_of(es[i], p) by {
            if j < d0.len() {
                assert(ed[j] == d0[j]);
                let i = choose|i: int|
                    0 <= i < pre.len() && too_noisy(#[trigger] pre[i], p) && d0[j] == noise_detail_of(pre[i], p);
                assert(pre[i] == es[i]);
            } else {
                assert(too_noisy(es[last], p));
            }
        }
        assert forall|j: int| 0 <= j < ed.len() && (#[trigger] ed[j]) is ExcessiveUnexplained implies exists|i: int|
            0 <= i < es.len() && too_unexplained(#[trigger] es[i], p) && ed[j] == unexplained_detail_of(es[i], p) by {
            if j < d0.len() {
                assert(ed[j] == d0[j]);
                let i = choose|i: int|
                    0 <= i < pre.len() && too_unexplained(#[trigger] pre[i], p) && d0[j] == unexplained_detail_of(
                        pre[i],
                        p,
                    );
                assert(pre[i] == es[i]);
            } else {
                assert(too_unexplained(es[last], p));
            }
        }
    }
}

/// Policy-level details are of the four policy kinds only.
proof fn lemma_policy_detail_kinds(es: Seq<LocalizationEntry>, p: PromotionPolicy)
    ensures
        forall|i: int|
            0 <= i < policy_details(es, p).len() ==> !((#[trigger] policy_details(es, p)[i]) is ExcessiveNoise)
                && !(policy_details(es, p)[i] is ExcessiveUnexplained),
{
    let pd = policy_details(es, p);
    let fam = family_count_of(es);
    let d1: Seq<RejectionDetail> = if fam < p.min_hardware_families_tested {
        seq![RejectionDetail::TooFewFamilies { tested: fam as usize, required: p.min_hardware_families_tested }]
    } else {
        Seq::empty()
    };
    let d2 = if p.require_arm_and_x64 && !(has_arm(es) && has_x64(es)) {
        d1.push(RejectionDetail::MissingIsaCoverage { has_arm: has_arm(es), has_x64: has_x64(es) })
    } else {
        d1
    };
    let avg = avg_algorithmic(es);
    let d3 = if avg < p.min_algorithmic_gain_millionths {
        d2.push(
            RejectionDetail::AlgorithmicGainTooLow {
                observed_millionths: avg,
                threshold_millionths: p.min_algorithmic_gain_millionths,
            },
        )
    } else {
        d2
    };
    assert forall|i: int| 0 <= i < d2.len() implies !((#[trigger] d2[i]) is ExcessiveNoise) && !(
    d2[i] is ExcessiveUnexplained) by {
        if i < d1.len() {
            assert(d2[i] == d1[i]);
        }
    }
    assert forall|i: int| 0 <= i < d3.len() implies !((#[trigger] d3[i]) is ExcessiveNoise) && !(
    d3[i] is ExcessiveUnexplained) by {
        if i < d2.len() {
            assert(d3[i] == d2[i]);
        }
    }
    assert forall|i: int| 0 <= i < pd.len() implies !((#[trigger] pd[i]) is ExcessiveNoise) && !(
    pd[i] is ExcessiveUnexplained) by {
        if i < d3.len() {
            assert(pd[i] == d3[i]);
        }
    }
}

/// On a board with entries and some speedup, the per-entry details are
/// exactly one noise detail for each entry whose noise exceeds the policy
/// maximum and one unexplained-residual detail for each entry whose
/// unexplained share exceeds its maximum, each naming the entry's family,
/// its value and the threshold.
pub proof fn law_promotion_entry_details(es: Seq<LocalizationEntry>, p: PromotionPolicy)
    requires
        es.len() > 0,
        any_speedup(es),
    ensures
        ({
            let ds = promotion_details(es, p);
            &&& noise_details(ds) == noisy_entries(es, p)
            &&& unexplained_details(ds) == unexplained_entries(es, p)
            &&& forall|i: int| 0 <= i < es.len() && too_noisy(#[trigger] es[i], p) ==> ds.contains(noise_detail_of(es[i], p))
            &&& forall|i: int|
                0 <= i < es.len() && too_unexplained(#[trigger] es[i], p) ==> ds.contains(unexplained_detail_of(es[i], p))
            &&& forall|j: int|
                0 <= j < ds.len() && (#[trigger] ds[j]) is ExcessiveNoise ==> exists|i: int|
                    0 <= i < es.len() && too_noisy(#[trigger] es[i], p) && ds[j] == noise_detail_of(es[i], p)
            &&& forall|j: int|
                0 <= j < ds.len() && (#[trigger] ds[j]) is ExcessiveUnexplained ==> exists|i: int|
                    0 <= i < es.len() && too_unexplained(#[trigger] es[i], p) && ds[j] == unexplained_detail_of(
                        es[i],
                        p,
                    )
        }),
{
    let ds = promotion_details(es, p);
    let pd = policy_details(es, p);
    let ed = entry_details(es, p);
    assert(ds == pd + ed);
    law_promotion_detail_conditions(es, p);
    lemma_entry_details_per_entry(es, p);
    lemma_policy_detail_kinds(es, p);
    lemma_detail_counts_zero(pd);
    lemma_detail_counts_concat(pd, ed);
    assert forall|i: int| 0 <= i < es.len() && too_noisy(#[trigger] es[i], p) implies ds.contains(
        noise_detail_of(es[i], p),
    ) by {
        let j = choose|j: int| 0 <= j < ed.len() && ed[j] == noise_detail_of(es[i], p);
        assert(ds[pd.len() + j] == ed[j]);
    }
    assert forall|i: int| 0 <= i < es.len() && too_unexplained(#[trigger] es[i], p) implies ds.contains(
        unexplained_detail_of(es[i], p),
    ) by {
        let j = choose|j: int| 0 <= j < ed.len() && ed[j] == unexplained_detail_of(es[i], p);
        assert(ds[pd.len() + j] == ed[j]);
    }
    assert forall|j: int| 0 <= j < ds.len() && (#[trigger] ds[j]) is ExcessiveNoise implies exists|i: int|
        0 <= i < es.len() && too_noisy(#[trigger] es[i], p) && ds[j] == noise_detail_of(es[i], p) by {
        if j < pd.len() {
            assert(ds[j] == pd[j]);
        } else {
            assert(ds[j] == ed[j - pd.len()]);
        }
    }
    assert forall|j: int| 0 <= j < ds.len() && (#[trigger] ds[j]) is ExcessiveUnexplained implies exists|i: int|
        0 <= i < es.len() && too_unexplained(#[trigger] es[i], p) && ds[j] == unexplained_detail_of(es[i], p) by {
        if j < pd.len() {
            assert(ds[j] == pd[j]);
        } else {
            assert(ds[j] == ed[j - pd.len()]);
        }
    }
}

/// Rejection details classified: with no detail the board is
/// promotable; any hardware-dominance detail (algorithmic gain too low or
/// hardware-attributable share too high) makes it hardware dependent,
/// whatever else is reported; family-coverage details alone (too few
/// families or missing ISA coverage, with no hardware-dominance detail)
/// mean insufficient evidence; any other non-empty list rejects.
pub proof fn law_classify_rules(ds: Seq<RejectionDetail>)
    ensures
        (classify(ds) == PromotionVerdict::Promotable) <==> ds.len() == 0,
        (exists|i: int|
            0 <= i < ds.len() && ((#[trigger] ds[i]) is AlgorithmicGainTooLow || ds[i] is HardwareAttributableTooHigh))
            ==> classify(ds) == PromotionVerdict::HardwareDependent,
        (classify(ds) == PromotionVerdict::InsufficientEvidence) <==> ((exists|i: int|
            0 <= i < ds.len() && ((#[trigger] ds[i]) is TooFewFamilies || ds[i] is MissingIsaCoverage)) && !(
        exists|i: int|
            0 <= i < ds.len() && ((#[trigger] ds[i]) is AlgorithmicGainTooLow || ds[i] is HardwareAttributableTooHigh))),
        (classify(ds) == PromotionVerdict::Rejected) <==> (ds.len() > 0 && !(exists|i: int|
            0 <= i < ds.len() && ((#[trigger] ds[i]) is TooFewFamilies || ds[i] is MissingIsaCoverage
                || ds[i] is AlgorithmicGainTooLow || ds[i] is HardwareAttributableTooHigh))),
{
    let hw = exists|i: int|
        0 <= i < ds.len() && ((#[trigger] ds[i]) is AlgorithmicGainTooLow || ds[i] is HardwareAttributableTooHigh);
    let fam = exists|i: int| 0 <= i < ds.len() && ((#[trigger] ds[i]) is TooFewFamilies || ds[i] is MissingIsaCoverage);
    assert(hw == exists|i: int| 0 <= i < ds.len() && is_hw_dominant(#[trigger] ds[i]));
    assert(fam == exists|i: int| 0 <= i < ds.len() && is_family_issue(#[trigger] ds[i]));
    if !(fam || hw) && ds.len() > 0 {
        assert(!(exists|i: int|
            0 <= i < ds.len() && ((#[trigger] ds[i]) is TooFewFamilies || ds[i] is MissingIsaCoverage
                || ds[i] is AlgorithmicGainTooLow || ds[i] is HardwareAttributableTooHigh)));
    }
    if exists|i: int|
        0 <= i < ds.len() && ((#[trigger] ds[i]) is TooFewFamilies || ds[i] is MissingIsaCoverage
            || ds[i] is AlgorithmicGainTooLow || ds[i] is HardwareAttributableTooHigh) {
        let i = choose|i: int|
            0 <= i < ds.len() && ((#[trigger] ds[i]) is TooFewFamilies || ds[i] is MissingIsaCoverage
                || ds[i] is AlgorithmicGainTooLow || ds[i] is HardwareAttributableTooHigh);
        assert(fam || hw);
    }
}

/// On a board with entries and some speedup, the verdict follows from the
/// board itself: an average algorithmic gain below the minimum or a
/// hardware-attributable share above the maximum makes it hardware
/// dependent; it lacks evidence exactly when too few families were tested
/// or required ISA coverage is missing, while neither hardware condition
/// holds.
pub proof fn law_promotion_verdict_by_board(es: Seq<LocalizationEntry>, p: PromotionPolicy)
    requires
        es.len() > 0,
        any_speedup(es),
    ensures
        avg_algorithmic(es) < p.min_algorithmic_gain_millionths || max_hardware(es)
            > p.max_hardware_attributable_millionths ==> promotion_verdict(es, p)
            == PromotionVerdict::HardwareDependent,
        (promotion_verdict(es, p) == PromotionVerdict::InsufficientEvidence) <==> ((family_count_of(es)
            < p.min_hardware_families_tested || (p.require_arm_and_x64 && !(has_arm(es) && has_x64(es))))
            && avg_algorithmic(es) >= p.min_algorithmic_gain_millionths && max_hardware(es)
            <= p.max_hardware_attributable_millionths),
{
    let ds = promotion_details(es, p);
    law_promotion_detail_conditions(es, p);
    law_classify_rules(ds);
    if family_count_of(es) < p.min_hardware_families_tested {
        let i = choose|i: int| 0 <= i < ds.len() && #[trigger] ds[i] is TooFewFamilies;
        assert(ds[i] is TooFewFamilies || ds[i] is MissingIsaCoverage);
    }
    if p.require_arm_and_x64 && !(has_arm(es) && has_x64(es)) {
        let i = choose|i: int| 0 <= i < ds.len() && #[trigger] ds[i] is MissingIsaCoverage;
        assert(ds[i] is TooFewFamilies || ds[i] is MissingIsaCoverage);
    }
    if avg_algorithmic(es) < p.min_algorithmic_gain_millionths {
        let i = choose|i: int| 0 <= i < ds.len() && #[trigger] ds[i] is AlgorithmicGainTooLow;
        assert(ds[i] is AlgorithmicGainTooLow || ds[i] is HardwareAttributableTooHigh);
    }
    if max_hardware(es) > p.max_hardware_attributable_millionths {
        let i = choose|i: int| 0 <= i < ds.len() && #[trigger] ds[i] is HardwareAttributableTooHigh;
        assert(ds[i] is AlgorithmicGainTooLow || ds[i] is HardwareAttributableTooHigh);
    }
    if exists|i: int| 0 <= i < ds.len() && ((#[trigger] ds[i]) is TooFewFamilies || ds[i] is MissingIsaCoverage) {
        let i = choose|i: int| 0 <= i < ds.len() && ((#[trigger] ds[i]) is TooFewFamilies || ds[i] is MissingIsaCoverage);
        if ds[i] is TooFewFamilies {
            assert(exists|j: int| 0 <= j < ds.len() && #[trigger] ds[j] is TooFewFamilies);
        } else {
            assert(exists|j: int| 0 <= j < ds.len() && #[trigger] ds[j] is MissingIsaCoverage);
        }
    }
    if exists|i: int|
        0 <= i < ds.len() && ((#[trigger] ds[i]) is AlgorithmicGainTooLow || ds[i] is HardwareAttributableTooHigh) {
        let i = choose|i: int|
            0 <= i < ds.len() && ((#[trigger] ds[i]) is AlgorithmicGainTooLow || ds[i] is HardwareAttributableTooHigh);
        if ds[i] is AlgorithmicGainTooLow {
            assert(exists|j: int| 0 <= j < ds.len() && #[trigger] ds[j] is AlgorithmicGainTooLow);
        } else {
            assert(exists|j: int| 0 <= j < ds.len() && #[trigger] ds[j] is HardwareAttributableTooHigh);
        }
    }
}

} // verus!
