//! Hierarchical delta debugging of failing programs.
//!
//! A failing program is cut into fragments at two structural levels: blocks
//! separated by blank lines (declarations) and the non-blank lines inside
//! them (statements).  The reducer then tries to drop fragments one at a
//! time, coarse levels first, asking an oracle whether the shrunken program
//! still shows the defect; a fragment whose removal keeps the defect is
//! dropped for good.  What is left is the minimal reproduction, identified
//! by a content hash of its defect class and source.

use crate::collections::{strictly_ranked, EnumSet, Ranked};
use crate::foundation::{
    bool_text, bool_to_str, decimal, hex_lower, owned, push_str, push_u32_le, push_u64_le,
    sha256_digest, sha256_hex_prefix, u32_le, u64_le, u64_to_decimal, utf8, SecurityEpoch,
};
use crate::text::{
    blank, byte_count, byte_len, chars_of, find_from, push_char, is_blank,
    find_chars, lemma_find_from, lemma_utf8_len_concat, lemma_utf8_len_prefix, lemma_utf8_window, string_from_chars,
    utf8_len,
};
use vstd::prelude::*;
use vstd::utf8::encode_utf8;

verus! {

// ---------------------------------------------------------------------------
// Constants
// ---------------------------------------------------------------------------

/// Module component name.
pub const COMPONENT: &'static str = "hierarchical_delta_debug";

/// Schema version for reduction artifacts.
pub const REDUCTION_SCHEMA_VERSION: &'static str = "1.0.0";

/// Default maximum reduction steps before giving up.
pub const DEFAULT_MAX_REDUCTION_STEPS: u32 = 1000;

/// Default minimum program size (bytes) to attempt reduction.
pub const DEFAULT_MIN_PROGRAM_SIZE: u32 = 10;

/// Default maximum time budget for reduction (milliseconds).
pub const DEFAULT_MAX_REDUCTION_TIME_MS: u64 = 60_000;

// ---------------------------------------------------------------------------
// DefectClass
// ---------------------------------------------------------------------------

/// Classification of the defect being reproduced.
#[derive(Debug, PartialEq, Eq, PartialOrd, Ord, Hash)]
pub enum DefectClass {
    /// Runtime crash (panic, abort, segfault).
    Crash,
    /// Wrong output (semantic mismatch vs reference).
    WrongOutput,
    /// Performance regression (exceeds latency/throughput budget).
    PerformanceRegression,
    /// IFC flow violation (unauthorized information flow).
    IfcViolation,
    /// Determinism failure (different results across replay).
    DeterminismFailure,
    /// Type system unsoundness.
    TypeUnsoundness,
    /// Module resolution failure.
    ModuleResolutionFailure,
    /// Memory safety violation (use-after-free, buffer overflow).
    MemorySafetyViolation,
    /// Timeout or infinite loop.
    Timeout,
    /// Assertion failure in internal invariant.
    AssertionFailure,
    /// Custom defect class.
    Custom { tag: String },
}

impl DefectClass {
    /// Display rendering of the class.
    pub open spec fn name(self) -> Seq<char> {
        match self {
            DefectClass::Crash => "crash"@,
            DefectClass::WrongOutput => "wrong-output"@,
            DefectClass::PerformanceRegression => "perf-regression"@,
            DefectClass::IfcViolation => "ifc-violation"@,
            DefectClass::DeterminismFailure => "determinism-failure"@,
            DefectClass::TypeUnsoundness => "type-unsoundness"@,
            DefectClass::ModuleResolutionFailure => "module-resolution"@,
            DefectClass::MemorySafetyViolation => "memory-safety"@,
            DefectClass::Timeout => "timeout"@,
            DefectClass::AssertionFailure => "assertion-failure"@,
            DefectClass::Custom { tag } => "custom("@ + tag@ + ")"@,
        }
    }

    /// Display rendering of the class.
    pub fn to_string(&self) -> (r: String)
        ensures
            r@ == self.name(),
    {
        match self {
            DefectClass::Crash => owned("crash"),
            DefectClass::WrongOutput => owned("wrong-output"),
            DefectClass::PerformanceRegression => owned("perf-regression"),
            DefectClass::IfcViolation => owned("ifc-violation"),
            DefectClass::DeterminismFailure => owned("determinism-failure"),
            DefectClass::TypeUnsoundness => owned("type-unsoundness"),
            DefectClass::ModuleResolutionFailure => owned("module-resolution"),
            DefectClass::MemorySafetyViolation => owned("memory-safety"),
            DefectClass::Timeout => owned("timeout"),
            DefectClass::AssertionFailure => owned("assertion-failure"),
            DefectClass::Custom { tag } => {
                let mut s = owned("custom(");
                s.append(tag.as_str());
                s.append(")");
                s
            },
        }
    }
}

impl Clone for DefectClass {
    fn clone(&self) -> (r: Self)
        ensures
            r == *self,
    {
        match self {
            DefectClass::Crash => DefectClass::Crash,
            DefectClass::WrongOutput => DefectClass::WrongOutput,
            DefectClass::PerformanceRegression => DefectClass::PerformanceRegression,
            DefectClass::IfcViolation => DefectClass::IfcViolation,
            DefectClass::DeterminismFailure => DefectClass::DeterminismFailure,
            DefectClass::TypeUnsoundness => DefectClass::TypeUnsoundness,
            DefectClass::ModuleResolutionFailure => DefectClass::ModuleResolutionFailure,
            DefectClass::MemorySafetyViolation => DefectClass::MemorySafetyViolation,
            DefectClass::Timeout => DefectClass::Timeout,
            DefectClass::AssertionFailure => DefectClass::AssertionFailure,
            DefectClass::Custom { tag } => DefectClass::Custom { tag: tag.clone() },
        }
    }
}

// ---------------------------------------------------------------------------
// ReductionLevel
// ---------------------------------------------------------------------------

/// The structural level at which reduction operates.
#[derive(Debug, Clone, Copy, PartialEq, Eq, PartialOrd, Ord, Hash, Structural)]
pub enum ReductionLevel {
    /// Remove entire modules/files.
    Module,
    /// Remove top-level declarations (classes, functions, imports).
    Declaration,
    /// Remove individual statements.
    Statement,
    /// Simplify expressions (replace with literals, remove operators).
    Expression,
    /// Simplify identifiers and string values.
    Token,
}

impl ReductionLevel {
    /// All reduction levels in coarse-to-fine order.
    pub const ALL: [ReductionLevel; 5] = [
        ReductionLevel::Module,
        ReductionLevel::Declaration,
        ReductionLevel::Statement,
        ReductionLevel::Expression,
        ReductionLevel::Token,
    ];

    /// All reduction levels in coarse-to-fine order.
    pub fn all() -> (r: [ReductionLevel; 5])
        ensures
            r@ == Self::ALL@,
            forall|i: int| 0 <= i < 5 ==> (#[trigger] r@[i]).rank() == i,
    {
        Self::ALL
    }

    /// Display rendering of the level.
    pub open spec fn name(self) -> Seq<char> {
        match self {
            ReductionLevel::Module => "module"@,
            ReductionLevel::Declaration => "declaration"@,
            ReductionLevel::Statement => "statement"@,
            ReductionLevel::Expression => "expression"@,
            ReductionLevel::Token => "token"@,
        }
    }

    /// Display rendering of the level.
    pub fn as_str(self) -> (r: &'static str)
        ensures
            r@ == self.name(),
    {
        match self {
            ReductionLevel::Module => "module",
            ReductionLevel::Declaration => "declaration",
            ReductionLevel::Statement => "statement",
            ReductionLevel::Expression => "expression",
            ReductionLevel::Token => "token",
        }
    }

    /// Display rendering of the level.
    pub fn to_string(&self) -> (r: String)
        ensures
            r@ == self.name(),
    {
        owned(self.as_str())
    }
}

impl Ranked for ReductionLevel {
    open spec fn rank(self) -> nat {
        match self {
            ReductionLevel::Module => 0,
            ReductionLevel::Declaration => 1,
            ReductionLevel::Statement => 2,
            ReductionLevel::Expression => 3,
            ReductionLevel::Token => 4,
        }
    }

    open spec fn variant_count() -> nat {
        5
    }

    open spec fn of_rank(r: nat) -> Self {
        if r == 0 {
            ReductionLevel::Module
        } else if r == 1 {
            ReductionLevel::Declaration
        } else if r == 2 {
            ReductionLevel::Statement
        } else if r == 3 {
            ReductionLevel::Expression
        } else {
            ReductionLevel::Token
        }
    }

    fn rank_exec(self) -> (r: usize) {
        match self {
            ReductionLevel::Module => 0,
            ReductionLevel::Declaration => 1,
            ReductionLevel::Statement => 2,
            ReductionLevel::Expression => 3,
            ReductionLevel::Token => 4,
        }
    }

    fn count() -> (r: usize) {
        5
    }

    fn from_rank(r: usize) -> (x: Self) {
        ReductionLevel::ALL[r]
    }

    proof fn lemma_rank(x: Self) {
    }

    proof fn lemma_count() {
    }

    proof fn lemma_of_rank(r: nat) {
    }
}

// ---------------------------------------------------------------------------
// ReductionStrategy
// ---------------------------------------------------------------------------

/// Strategy for reducing a program at a given level.
#[derive(Debug, Clone, Copy, PartialEq, Eq, PartialOrd, Ord, Hash, Structural)]
pub enum ReductionStrategy {
    /// Classic ddmin: binary split and retry.
    DeltaDebugging,
    /// Hierarchical: reduce coarse levels first, then refine.
    HierarchicalDelta,
    /// Structured: preserve syntactic validity during reduction.
    StructuredReduction,
    /// Semantic-aware: preserve import/dependency relationships.
    SemanticPreserving,
    /// Type-directed: maintain type constraints during reduction.
    TypeDirected,
}

impl ReductionStrategy {
    /// All strategies in declaration order.
    pub const ALL: [ReductionStrategy; 5] = [
        ReductionStrategy::DeltaDebugging,
        ReductionStrategy::HierarchicalDelta,
        ReductionStrategy::StructuredReduction,
        ReductionStrategy::SemanticPreserving,
        ReductionStrategy::TypeDirected,
    ];

    /// Display rendering of the strategy.
    pub open spec fn name(self) -> Seq<char> {
        match self {
            ReductionStrategy::DeltaDebugging => "ddmin"@,
            ReductionStrategy::HierarchicalDelta => "hierarchical"@,
            ReductionStrategy::StructuredReduction => "structured"@,
            ReductionStrategy::SemanticPreserving => "semantic"@,
            ReductionStrategy::TypeDirected => "type-directed"@,
        }
    }

    /// Display rendering of the strategy.
    pub fn as_str(self) -> (r: &'static str)
        ensures
            r@ == self.name(),
    {
        match self {
            ReductionStrategy::DeltaDebugging => "ddmin",
            ReductionStrategy::HierarchicalDelta => "hierarchical",
            ReductionStrategy::StructuredReduction => "structured",
            ReductionStrategy::SemanticPreserving => "semantic",
            ReductionStrategy::TypeDirected => "type-directed",
        }
    }

    /// Display rendering of the strategy.
    pub fn to_string(&self) -> (r: String)
        ensures
            r@ == self.name(),
    {
        owned(self.as_str())
    }
}

impl Ranked for ReductionStrategy {
    open spec fn rank(self) -> nat {
        match self {
            ReductionStrategy::DeltaDebugging => 0,
            ReductionStrategy::HierarchicalDelta => 1,
            ReductionStrategy::StructuredReduction => 2,
            ReductionStrategy::SemanticPreserving => 3,
            ReductionStrategy::TypeDirected => 4,
        }
    }

    open spec fn variant_count() -> nat {
        5
    }

    open spec fn of_rank(r: nat) -> Self {
        if r == 0 {
            ReductionStrategy::DeltaDebugging
        } else if r == 1 {
            ReductionStrategy::HierarchicalDelta
        } else if r == 2 {
            ReductionStrategy::StructuredReduction
        } else if r == 3 {
            ReductionStrategy::SemanticPreserving
        } else {
            ReductionStrategy::TypeDirected
        }
    }

    fn rank_exec(self) -> (r: usize) {
        match self {
            ReductionStrategy::DeltaDebugging => 0,
            ReductionStrategy::HierarchicalDelta => 1,
            ReductionStrategy::StructuredReduction => 2,
            ReductionStrategy::SemanticPreserving => 3,
            ReductionStrategy::TypeDirected => 4,
        }
    }

    fn count() -> (r: usize) {
        5
    }

    fn from_rank(r: usize) -> (x: Self) {
        ReductionStrategy::ALL[r]
    }

    proof fn lemma_rank(x: Self) {
    }

    proof fn lemma_count() {
    }

    proof fn lemma_of_rank(r: nat) {
    }
}

// ---------------------------------------------------------------------------
// ReductionConfig
// ---------------------------------------------------------------------------

/// Configuration for the delta debugging reducer.
#[derive(Debug, PartialEq, Eq)]
pub struct ReductionConfig {
    /// Maximum reduction steps.
    pub max_steps: u32,
    /// Minimum program size to attempt reduction.
    pub min_program_size: u32,
    /// Maximum time budget (ms).
    pub max_time_ms: u64,
    /// Whether to preserve syntactic validity.
    pub preserve_syntax: bool,
    /// Whether to preserve import/dependency structure.
    pub preserve_imports: bool,
    /// Strategies to apply in order.
    pub strategies: Vec<ReductionStrategy>,
    /// Reduction levels to attempt.
    pub levels: Vec<ReductionLevel>,
    /// Whether to emit intermediate artifacts.
    pub emit_intermediates: bool,
}

/// The byte of a flag in hashed encodings: 1 for true, 0 for false.
pub open spec fn flag_byte(b: bool) -> Seq<u8> {
    if b {
        seq![1u8]
    } else {
        seq![0u8]
    }
}

/// The UTF-8 bytes of the strategies' names, one after another.
pub open spec fn strategy_names_bytes(s: Seq<ReductionStrategy>) -> Seq<u8>
    decreases s.len(),
{
    if s.len() == 0 {
        Seq::empty()
    } else {
        strategy_names_bytes(s.drop_last()) + utf8(s.last().name())
    }
}

/// The UTF-8 bytes of the levels' names, one after another.
pub open spec fn level_names_bytes(s: Seq<ReductionLevel>) -> Seq<u8>
    decreases s.len(),
{
    if s.len() == 0 {
        Seq::empty()
    } else {
        level_names_bytes(s.drop_last()) + utf8(s.last().name())
    }
}

impl ReductionConfig {
    /// Field-wise equality, the relation a clone has to its original.
    pub open spec fn same_as(self, other: Self) -> bool {
        &&& self.max_steps == other.max_steps
        &&& self.min_program_size == other.min_program_size
        &&& self.max_time_ms == other.max_time_ms
        &&& self.preserve_syntax == other.preserve_syntax
        &&& self.preserve_imports == other.preserve_imports
        &&& self.strategies@ == other.strategies@
        &&& self.levels@ == other.levels@
        &&& self.emit_intermediates == other.emit_intermediates
    }

    /// Bytes hashed into the configuration hash.
    pub open spec fn hash_input(self) -> Seq<u8> {
        utf8("ReductionConfig.v1"@) + u32_le(self.max_steps) + u32_le(self.min_program_size)
            + u64_le(self.max_time_ms) + flag_byte(self.preserve_syntax) + flag_byte(
            self.preserve_imports,
        ) + strategy_names_bytes(self.strategies@) + level_names_bytes(self.levels@)
    }

    /// `rc-` and the hex of the first eight bytes of the SHA-256 of the
    /// hash input.
    pub open spec fn config_hash_spec(self) -> Seq<char> {
        "rc-"@ + hex_lower(sha256_digest(self.hash_input()).take(8))
    }

    /// Compute the deterministic configuration hash.
    pub fn config_hash(&self) -> (r: String)
        ensures
            r@ == self.config_hash_spec(),
    {
        let mut buf: Vec<u8> = Vec::new();
        push_str(&mut buf, "ReductionConfig.v1");
        push_u32_le(&mut buf, self.max_steps);
        push_u32_le(&mut buf, self.min_program_size);
        push_u64_le(&mut buf, self.max_time_ms);
        buf.push(if self.preserve_syntax { 1u8 } else { 0u8 });
        buf.push(if self.preserve_imports { 1u8 } else { 0u8 });
        let ghost head = buf@;
        let mut i: usize = 0;
        while i < self.strategies.len()
            invariant
                i <= self.strategies@.len(),
                buf@ == head + strategy_names_bytes(self.strategies@.take(i as int)),
            decreases self.strategies@.len() - i,
        {
            push_str(&mut buf, self.strategies[i].as_str());
            assert(self.strategies@.take(i + 1).drop_last() =~= self.strategies@.take(i as int));
            i = i + 1;
        }
        assert(self.strategies@.take(self.strategies@.len() as int) =~= self.strategies@);
        let ghost mid = buf@;
        let mut j: usize = 0;
        while j < self.levels.len()
            invariant
                j <= self.levels@.len(),
                buf@ == mid + level_names_bytes(self.levels@.take(j as int)),
            decreases self.levels@.len() - j,
        {
            push_str(&mut buf, self.levels[j].as_str());
            assert(self.levels@.take(j + 1).drop_last() =~= self.levels@.take(j as int));
            j = j + 1;
        }
        assert(self.levels@.take(self.levels@.len() as int) =~= self.levels@);
        proof {
            reveal_strlit("ReductionConfig.v1");
            assert(seq![(if self.preserve_syntax { 1u8 } else { 0u8 })] =~= flag_byte(
                self.preserve_syntax,
            ));
        }
        assert(buf@ =~= self.hash_input());
        let mut r = owned("rc-");
        r.append(sha256_hex_prefix(buf.as_slice(), 8).as_str());
        r
    }

    /// Display rendering
    /// `reduction-config(max-steps=N, syntax=B, imports=B)`.
    pub fn to_string(&self) -> (r: String)
        ensures
            r@ == "reduction-config(max-steps="@ + decimal(self.max_steps as nat) + ", syntax="@
                + bool_text(self.preserve_syntax) + ", imports="@ + bool_text(
                self.preserve_imports,
            ) + ")"@,
    {
        let mut r = owned("reduction-config(max-steps=");
        r.append(u64_to_decimal(self.max_steps as u64).as_str());
        r.append(", syntax=");
        r.append(bool_to_str(self.preserve_syntax));
        r.append(", imports=");
        r.append(bool_to_str(self.preserve_imports));
        r.append(")");
        r
    }
}

impl Clone for ReductionConfig {
    fn clone(&self) -> (r: Self)
        ensures
            r.same_as(*self),
    {
        let strategies = self.strategies.clone();
        let levels = self.levels.clone();
        assert(strategies@ =~= self.strategies@);
        assert(levels@ =~= self.levels@);
        ReductionConfig {
            max_steps: self.max_steps,
            min_program_size: self.min_program_size,
            max_time_ms: self.max_time_ms,
            preserve_syntax: self.preserve_syntax,
            preserve_imports: self.preserve_imports,
            strategies,
            levels,
            emit_intermediates: self.emit_intermediates,
        }
    }
}

impl Default for ReductionConfig {
    fn default() -> (r: Self)
        ensures
            r.max_steps == DEFAULT_MAX_REDUCTION_STEPS,
            r.min_program_size == DEFAULT_MIN_PROGRAM_SIZE,
            r.max_time_ms == DEFAULT_MAX_REDUCTION_TIME_MS,
            r.preserve_syntax,
            r.preserve_imports,
            r.strategies@ == seq![
                ReductionStrategy::HierarchicalDelta,
                ReductionStrategy::StructuredReduction,
            ],
            r.levels@ == ReductionLevel::ALL@,
            !r.emit_intermediates,
    {
        let levels = vec![
            ReductionLevel::Module,
            ReductionLevel::Declaration,
            ReductionLevel::Statement,
            ReductionLevel::Expression,
            ReductionLevel::Token,
        ];
        assert(levels@ =~= ReductionLevel::ALL@);
        ReductionConfig {
            max_steps: DEFAULT_MAX_REDUCTION_STEPS,
            min_program_size: DEFAULT_MIN_PROGRAM_SIZE,
            max_time_ms: DEFAULT_MAX_REDUCTION_TIME_MS,
            preserve_syntax: true,
            preserve_imports: true,
            strategies: vec![
                ReductionStrategy::HierarchicalDelta,
                ReductionStrategy::StructuredReduction,
            ],
            levels,
            emit_intermediates: false,
        }
    }
}


// ---------------------------------------------------------------------------
// ProgramFragment
// ---------------------------------------------------------------------------

/// A fragment of the program being reduced.
#[derive(Debug, PartialEq, Eq)]
pub struct ProgramFragment {
    /// Fragment identifier.
    pub fragment_id: String,
    /// Structural level of this fragment.
    pub level: ReductionLevel,
    /// Source text of the fragment.
    pub source: String,
    /// Byte offset in original source (start).
    pub start_offset: u32,
    /// Byte offset in original source (end, exclusive).
    pub end_offset: u32,
    /// Parent fragment ID (if this is a sub-fragment).
    pub parent_id: Option<String>,
    /// Whether this fragment is currently included in the test.
    pub included: bool,
    /// Whether removal was tested.
    pub tested: bool,
    /// Whether removal preserved the defect.
    pub removable: bool,
}

/// Bytes hashed into a fragment identifier.
pub open spec fn fragment_id_input(level: ReductionLevel, start: u32, end: u32) -> Seq<u8> {
    utf8("ProgramFragment.v1"@) + utf8(level.name()) + u32_le(start) + u32_le(end)
}

/// A fragment identifier: `frag-` and the hex of the first six bytes of the
/// SHA-256 of level and offsets.  The fragment's text does not enter it.
pub open spec fn fragment_id_spec(level: ReductionLevel, start: u32, end: u32) -> Seq<char> {
    "frag-"@ + hex_lower(sha256_digest(fragment_id_input(level, start, end)).take(6))
}

/// The identifier of a fragment at a level and byte range.
pub fn fragment_id(level: ReductionLevel, start: u32, end: u32) -> (r: String)
    ensures
        r@ == fragment_id_spec(level, start, end),
{
    let mut buf: Vec<u8> = Vec::new();
    push_str(&mut buf, "ProgramFragment.v1");
    push_str(&mut buf, level.as_str());
    push_u32_le(&mut buf, start);
    push_u32_le(&mut buf, end);
    proof {
        reveal_strlit("ProgramFragment.v1");
    }
    assert(buf@ =~= fragment_id_input(level, start, end));
    let mut r = owned("frag-");
    r.append(sha256_hex_prefix(buf.as_slice(), 6).as_str());
    r
}

/// `s.0@`, or nothing.
pub open spec fn opt_view(s: Option<String>) -> Option<Seq<char>> {
    match s {
        Some(x) => Some(x@),
        None => None,
    }
}

/// A copy of an optional string.
fn copy_opt(s: &Option<String>) -> (r: Option<String>)
    ensures
        opt_view(r) == opt_view(*s),
{
    match s {
        Some(x) => Some(x.clone()),
        None => None,
    }
}

impl ProgramFragment {
    /// Field-wise equality, the relation a clone has to its original.
    pub open spec fn same_as(self, other: Self) -> bool {
        &&& self.fragment_id@ == other.fragment_id@
        &&& self.level == other.level
        &&& self.source@ == other.source@
        &&& self.start_offset == other.start_offset
        &&& self.end_offset == other.end_offset
        &&& opt_view(self.parent_id) == opt_view(other.parent_id)
        &&& self.included == other.included
        &&& self.tested == other.tested
        &&& self.removable == other.removable
    }

    /// Create a new fragment: included, untested, without a parent, and
    /// identified by its level and byte range.
    pub fn new(level: ReductionLevel, source: &str, start_offset: u32, end_offset: u32) -> (r: Self)
        ensures
            r.fragment_id@ == fragment_id_spec(level, start_offset, end_offset),
            r.level == level,
            r.source@ == source@,
            r.start_offset == start_offset,
            r.end_offset == end_offset,
            r.parent_id is None,
            r.included,
            !r.tested,
            !r.removable,
    {
        ProgramFragment {
            fragment_id: fragment_id(level, start_offset, end_offset),
            level,
            source: owned(source),
            start_offset,
            end_offset,
            parent_id: None,
            included: true,
            tested: false,
            removable: false,
        }
    }

    /// Size of the byte range, zero when it is reversed.
    pub open spec fn size_spec(self) -> u32 {
        if self.end_offset >= self.start_offset {
            (self.end_offset - self.start_offset) as u32
        } else {
            0
        }
    }

    /// Size of this fragment in bytes.
    pub fn size(&self) -> (r: u32)
        ensures
            r == self.size_spec(),
    {
        self.end_offset.saturating_sub(self.start_offset)
    }

    /// Mark as tested and record whether removal preserved the defect; a
    /// removable fragment leaves the program.
    pub fn mark_tested(&mut self, removable: bool)
        ensures
            final(self).tested,
            final(self).removable == removable,
            final(self).included == (old(self).included && !removable),
            final(self).fragment_id == old(self).fragment_id,
            final(self).level == old(self).level,
            final(self).source == old(self).source,
            final(self).start_offset == old(self).start_offset,
            final(self).end_offset == old(self).end_offset,
            final(self).parent_id == old(self).parent_id,
    {
        self.tested = true;
        self.removable = removable;
        if removable {
            self.included = false;
        }
    }

    /// Display rendering
    /// `fragment ID (level=L, S-E, NB, included=B)`.
    pub fn to_string(&self) -> (r: String)
        ensures
            r@ == "fragment "@ + self.fragment_id@ + " (level="@ + self.level.name() + ", "@
                + decimal(self.start_offset as nat) + "-"@ + decimal(self.end_offset as nat)
                + ", "@ + decimal(self.size_spec() as nat) + "B, included="@ + bool_text(
                self.included,
            ) + ")"@,
    {
        let mut r = owned("fragment ");
        r.append(self.fragment_id.as_str());
        r.append(" (level=");
        r.append(self.level.as_str());
        r.append(", ");
        r.append(u64_to_decimal(self.start_offset as u64).as_str());
        r.append("-");
        r.append(u64_to_decimal(self.end_offset as u64).as_str());
        r.append(", ");
        r.append(u64_to_decimal(self.size() as u64).as_str());
        r.append("B, included=");
        r.append(bool_to_str(self.included));
        r.append(")");
        r
    }
}

impl Clone for ProgramFragment {
    fn clone(&self) -> (r: Self)
        ensures
            r.same_as(*self),
    {
        ProgramFragment {
            fragment_id: self.fragment_id.clone(),
            level: self.level,
            source: self.source.clone(),
            start_offset: self.start_offset,
            end_offset: self.end_offset,
            parent_id: copy_opt(&self.parent_id),
            included: self.included,
            tested: self.tested,
            removable: self.removable,
        }
    }
}

// ---------------------------------------------------------------------------
// StepOutcome and ReductionStep
// ---------------------------------------------------------------------------

/// Outcome of a single reduction attempt.
#[derive(Debug, Clone, Copy, PartialEq, Eq, Structural)]
pub enum StepOutcome {
    /// Removal preserved the defect — fragment is removable.
    DefectPreserved,
    /// Removal lost the defect — fragment is essential.
    DefectLost,
    /// Candidate was syntactically invalid.
    SyntaxError,
    /// Candidate timed out during testing.
    TestTimeout,
    /// Step was skipped (e.g., fragment too small).
    Skipped,
}

impl StepOutcome {
    /// Display rendering of the outcome.
    pub open spec fn name(self) -> Seq<char> {
        match self {
            StepOutcome::DefectPreserved => "defect-preserved"@,
            StepOutcome::DefectLost => "defect-lost"@,
            StepOutcome::SyntaxError => "syntax-error"@,
            StepOutcome::TestTimeout => "test-timeout"@,
            StepOutcome::Skipped => "skipped"@,
        }
    }

    /// Display rendering of the outcome.
    pub fn as_str(self) -> (r: &'static str)
        ensures
            r@ == self.name(),
    {
        match self {
            StepOutcome::DefectPreserved => "defect-preserved",
            StepOutcome::DefectLost => "defect-lost",
            StepOutcome::SyntaxError => "syntax-error",
            StepOutcome::TestTimeout => "test-timeout",
            StepOutcome::Skipped => "skipped",
        }
    }

    /// Display rendering of the outcome.
    pub fn to_string(&self) -> (r: String)
        ensures
            r@ == self.name(),
    {
        owned(self.as_str())
    }
}

/// A single reduction step in the debug process.
#[derive(Debug, Clone, PartialEq, Eq)]
pub struct ReductionStep {
    /// Step sequence number.
    pub step_number: u32,
    /// Level at which reduction was attempted.
    pub level: ReductionLevel,
    /// Strategy used.
    pub strategy: ReductionStrategy,
    /// Fragment IDs that were removed in this step.
    pub removed_fragment_ids: Vec<String>,
    /// Outcome of the step.
    pub outcome: StepOutcome,
    /// Program size after this step (bytes).
    pub program_size_after: u32,
    /// Whether the step produced a smaller valid reproduction.
    pub progress: bool,
}

/// The character sequences of some strings.
pub open spec fn views(s: Seq<String>) -> Seq<Seq<char>> {
    s.map_values(|x: String| x@)
}

/// The UTF-8 bytes of the strings, one after another.
pub open spec fn concat_bytes(s: Seq<Seq<char>>) -> Seq<u8>
    decreases s.len(),
{
    if s.len() == 0 {
        Seq::empty()
    } else {
        concat_bytes(s.drop_last()) + utf8(s.last())
    }
}

impl ReductionStep {
    /// Bytes hashed into the step's content hash.
    pub open spec fn hash_input(self) -> Seq<u8> {
        utf8("ReductionStep.v1"@) + u32_le(self.step_number) + utf8(self.level.name()) + utf8(
            self.strategy.name(),
        ) + concat_bytes(views(self.removed_fragment_ids@)) + utf8(self.outcome.name())
    }

    /// `rs-` and the hex of the first six bytes of the SHA-256 of the hash
    /// input.
    pub open spec fn content_hash_spec(self) -> Seq<char> {
        "rs-"@ + hex_lower(sha256_digest(self.hash_input()).take(6))
    }

    /// Content hash for auditing.
    pub fn content_hash(&self) -> (r: String)
        ensures
            r@ == self.content_hash_spec(),
    {
        let mut buf: Vec<u8> = Vec::new();
        push_str(&mut buf, "ReductionStep.v1");
        push_u32_le(&mut buf, self.step_number);
        push_str(&mut buf, self.level.as_str());
        push_str(&mut buf, self.strategy.as_str());
        let ghost head = buf@;
        let mut i: usize = 0;
        while i < self.removed_fragment_ids.len()
            invariant
                i <= self.removed_fragment_ids@.len(),
                buf@ == head + concat_bytes(views(self.removed_fragment_ids@).take(i as int)),
            decreases self.removed_fragment_ids@.len() - i,
        {
            push_str(&mut buf, self.removed_fragment_ids[i].as_str());
            assert(views(self.removed_fragment_ids@).take(i + 1).drop_last() =~= views(
                self.removed_fragment_ids@,
            ).take(i as int));
            i = i + 1;
        }
        assert(views(self.removed_fragment_ids@).take(self.removed_fragment_ids@.len() as int)
            =~= views(self.removed_fragment_ids@));
        push_str(&mut buf, self.outcome.as_str());
        proof {
            reveal_strlit("ReductionStep.v1");
        }
        assert(buf@ =~= self.hash_input());
        let mut r = owned("rs-");
        r.append(sha256_hex_prefix(buf.as_slice(), 6).as_str());
        r
    }

    /// Display rendering
    /// `step #N (LEVEL/STRATEGY, removed=K, outcome=O, size=S)`.
    pub fn to_string(&self) -> (r: String)
        ensures
            r@ == "step #"@ + decimal(self.step_number as nat) + " ("@ + self.level.name() + "/"@
                + self.strategy.name() + ", removed="@ + decimal(
                self.removed_fragment_ids@.len(),
            ) + ", outcome="@ + self.outcome.name() + ", size="@ + decimal(
                self.program_size_after as nat,
            ) + ")"@,
    {
        let mut r = owned("step #");
        r.append(u64_to_decimal(self.step_number as u64).as_str());
        r.append(" (");
        r.append(self.level.as_str());
        r.append("/");
        r.append(self.strategy.as_str());
        r.append(", removed=");
        r.append(u64_to_decimal(self.removed_fragment_ids.len() as u64).as_str());
        r.append(", outcome=");
        r.append(self.outcome.as_str());
        r.append(", size=");
        r.append(u64_to_decimal(self.program_size_after as u64).as_str());
        r.append(")");
        r
    }
}


// ---------------------------------------------------------------------------
// Fragmentation plan
// ---------------------------------------------------------------------------

/// A planned fragment: level, text, byte start, byte end and the identifier
/// of its parent.
pub type PlannedFragment = (ReductionLevel, Seq<char>, int, int, Option<Seq<char>>);

/// The separator between top-level blocks: an empty line.
pub open spec fn block_separator() -> Seq<char> {
    seq!['\n', '\n']
}

/// The separator between lines.
pub open spec fn line_separator() -> Seq<char> {
    seq!['\n']
}

/// Declaration fragments of the blocks of `s` from character position
/// `start` on: the pieces between empty lines, each at its byte offset in
/// `s`, kept when at least `min` bytes long.
pub open spec fn decl_plan_from(s: Seq<char>, start: int, min: int) -> Seq<PlannedFragment>
    decreases s.len() - start,
{
    if start < 0 || start > s.len() {
        seq![]
    } else {
        let k = find_from(s, block_separator(), start);
        let block = s.subrange(start, k);
        let off = utf8_len(s.subrange(0, start)) as int;
        let n = utf8_len(block) as int;
        let here: Seq<PlannedFragment> = if n >= min {
            seq![(ReductionLevel::Declaration, block, off, off + n, None)]
        } else {
            seq![]
        };
        if k >= s.len() {
            here
        } else {
            proof {
                lemma_find_from(s, block_separator(), start);
            }
            here + decl_plan_from(s, k + 2, min)
        }
    }
}

/// Statement fragments of the lines of block `b` from character position
/// `p` on: each line that is not blank and at least three bytes long, at
/// its byte offset (the block starting at byte `off`), with parent `parent`.
pub open spec fn line_plan_from(b: Seq<char>, p: int, off: int, parent: Seq<char>) -> Seq<PlannedFragment>
    decreases b.len() - p,
{
    if p < 0 || p > b.len() {
        seq![]
    } else {
        let k = find_from(b, line_separator(), p);
        let line = b.subrange(p, k);
        let lo = off + utf8_len(b.subrange(0, p));
        let n = utf8_len(line) as int;
        let here: Seq<PlannedFragment> = if !is_blank(line) && n >= 3 {
            seq![(ReductionLevel::Statement, line, lo, lo + n, Some(parent))]
        } else {
            seq![]
        };
        if k >= b.len() {
            here
        } else {
            proof {
                lemma_find_from(b, line_separator(), p);
            }
            here + line_plan_from(b, k + 1, off, parent)
        }
    }
}

/// Statement fragments of each planned declaration, in order.
pub open spec fn stmt_plan(decls: Seq<PlannedFragment>) -> Seq<PlannedFragment>
    decreases decls.len(),
{
    if decls.len() == 0 {
        seq![]
    } else {
        let d = decls.last();
        stmt_plan(decls.drop_last()) + line_plan_from(
            d.1,
            0,
            d.2,
            fragment_id_spec(d.0, d.2 as u32, d.3 as u32),
        )
    }
}

/// The fragments of a source: its declarations, then their statements.
pub open spec fn fragment_plan(s: Seq<char>, min: u32) -> Seq<PlannedFragment> {
    decl_plan_from(s, 0, min as int) + stmt_plan(decl_plan_from(s, 0, min as int))
}

/// A fragment carries the level, text, range and parent of a plan entry,
/// and the identifier of its level and range.
pub open spec fn realizes(f: ProgramFragment, p: PlannedFragment) -> bool {
    &&& f.level == p.0
    &&& f.source@ == p.1
    &&& f.start_offset as int == p.2
    &&& f.end_offset as int == p.3
    &&& f.fragment_id@ == fragment_id_spec(f.level, f.start_offset, f.end_offset)
    &&& opt_view(f.parent_id) == p.4
}

/// A fragment that has not been tried yet.
pub open spec fn fresh(f: ProgramFragment) -> bool {
    f.included && !f.tested && !f.removable
}

/// Planned declarations end where their text ends.
proof fn lemma_decl_plan_shape(s: Seq<char>, start: int, min: int)
    ensures
        forall|i: int|
            0 <= i < decl_plan_from(s, start, min).len() ==> {
                let p = #[trigger] decl_plan_from(s, start, min)[i];
                &&& p.3 == p.2 + utf8_len(p.1)
                &&& p.2 >= 0
                &&& p.0 == ReductionLevel::Declaration
            },
    decreases s.len() - start,
{
    if 0 <= start <= s.len() {
        let k = find_from(s, block_separator(), start);
        lemma_find_from(s, block_separator(), start);
        if k < s.len() {
            lemma_decl_plan_shape(s, k + 2, min);
        }
    }
}

/// The declaration fragments of a source.
fn declaration_fragments(src: &str, min: u32) -> (r: Vec<ProgramFragment>)
    requires
        utf8_len(src@) <= u32::MAX,
    ensures
        r@.len() == decl_plan_from(src@, 0, min as int).len(),
        forall|i: int|
            0 <= i < r@.len() ==> realizes(#[trigger] r@[i], decl_plan_from(src@, 0, min as int)[i])
                && fresh(r@[i]),
{
    let c = chars_of(src);
    let sep: Vec<char> = vec!['\n', '\n'];
    assert(sep@ =~= block_separator());
    let mut out: Vec<ProgramFragment> = Vec::new();
    let mut start: usize = 0;
    let mut offset: u32 = 0;
    let ghost s = src@;
    let ghost plan = decl_plan_from(s, 0, min as int);
    let ghost mut done: Seq<PlannedFragment> = seq![];
    assert(s.subrange(0, 0) =~= Seq::<char>::empty());
    loop
        invariant
            c@ == s,
            s == src@,
            plan == decl_plan_from(s, 0, min as int),
            sep@ == block_separator(),
            start <= s.len(),
            utf8_len(s) <= u32::MAX,
            offset as int == utf8_len(s.subrange(0, start as int)),
            plan == done + decl_plan_from(s, start as int, min as int),
            out@.len() == done.len(),
            forall|i: int| 0 <= i < out@.len() ==> realizes(#[trigger] out@[i], done[i]) && fresh(out@[i]),
        decreases s.len() - start,
    {
        let k = find_chars(&c, &sep, start);
        proof {
            lemma_find_from(s, block_separator(), start as int);
            assert(s.subrange(0, k as int) =~= s.subrange(0, start as int) + s.subrange(start as int, k as int));
            lemma_utf8_len_concat(s.subrange(0, start as int), s.subrange(start as int, k as int));
            lemma_utf8_len_prefix(s, k as int);
        }
        let block = string_from_chars(&c, start, k);
        let block_len = byte_len(block.as_str()) as u32;
        assert(block_len as int == utf8_len(block@));
        let ghost here: Seq<PlannedFragment> = if block_len >= min {
            seq![(ReductionLevel::Declaration, block@, offset as int, offset + block_len, None)]
        } else {
            seq![]
        };
        if block_len >= min {
            let f = ProgramFragment::new(ReductionLevel::Declaration, block.as_str(), offset, offset + block_len);
            out.push(f);
        }
        proof {
            done = done + here;
        }
        if k >= c.len() {
            assert(decl_plan_from(s, start as int, min as int) == here);
            assert(plan =~= done);
            return out;
        }
        assert(decl_plan_from(s, start as int, min as int) == here + decl_plan_from(s, k + 2, min as int));
        proof {
            assert(plan =~= done + decl_plan_from(s, k + 2, min as int));
            assert(s.subrange(k as int, k + 2) =~= seq!['\n', '\n']);
            assert(s.subrange(0, k + 2) =~= s.subrange(0, k as int) + s.subrange(k as int, k + 2));
            lemma_utf8_len_concat(s.subrange(0, k as int), s.subrange(k as int, k + 2));
            crate::text::lemma_utf8_len_newline();
            lemma_utf8_len_prefix(s, k + 2);
        }
        offset = offset.saturating_add(block_len).saturating_add(2);
        start = k + 2;
    }
}

/// The statement fragments of a declaration fragment.
fn statement_fragments(d: &ProgramFragment) -> (r: Vec<ProgramFragment>)
    requires
        d.start_offset as int + utf8_len(d.source@) <= u32::MAX,
    ensures
        r@.len() == line_plan_from(d.source@, 0, d.start_offset as int, d.fragment_id@).len(),
        forall|i: int|
            0 <= i < r@.len() ==> realizes(
                #[trigger] r@[i],
                line_plan_from(d.source@, 0, d.start_offset as int, d.fragment_id@)[i],
            ) && fresh(r@[i]),
{
    let c = chars_of(d.source.as_str());
    let sep: Vec<char> = vec!['\n'];
    assert(sep@ =~= line_separator());
    let mut out: Vec<ProgramFragment> = Vec::new();
    let mut p: usize = 0;
    let mut local: u32 = d.start_offset;
    let ghost b = d.source@;
    let ghost parent = d.fragment_id@;
    let ghost off = d.start_offset as int;
    let ghost plan = line_plan_from(b, 0, off, parent);
    let ghost mut done: Seq<PlannedFragment> = seq![];
    assert(b.subrange(0, 0) =~= Seq::<char>::empty());
    loop
        invariant
            c@ == b,
            b == d.source@,
            parent == d.fragment_id@,
            off == d.start_offset as int,
            plan == line_plan_from(b, 0, off, parent),
            sep@ == line_separator(),
            p <= b.len(),
            off + utf8_len(b) <= u32::MAX,
            local as int == off + utf8_len(b.subrange(0, p as int)),
            plan == done + line_plan_from(b, p as int, off, parent),
            out@.len() == done.len(),
            forall|i: int| 0 <= i < out@.len() ==> realizes(#[trigger] out@[i], done[i]) && fresh(out@[i]),
        decreases b.len() - p,
    {
        let k = find_chars(&c, &sep, p);
        proof {
            lemma_find_from(b, line_separator(), p as int);
            assert(b.subrange(0, k as int) =~= b.subrange(0, p as int) + b.subrange(p as int, k as int));
            lemma_utf8_len_concat(b.subrange(0, p as int), b.subrange(p as int, k as int));
            lemma_utf8_len_prefix(b, k as int);
        }
        let line = string_from_chars(&c, p, k);
        let line_len = byte_len(line.as_str()) as u32;
        assert(line_len as int == utf8_len(line@));
        let keep = !blank(line.as_str()) && line_len >= 3;
        let ghost here: Seq<PlannedFragment> = if keep {
            seq![(ReductionLevel::Statement, line@, local as int, local + line_len, Some(parent))]
        } else {
            seq![]
        };
        if keep {
            let mut f = ProgramFragment::new(ReductionLevel::Statement, line.as_str(), local, local + line_len);
            f.parent_id = Some(d.fragment_id.clone());
            out.push(f);
        }
        proof {
            done = done + here;
        }
        if k >= c.len() {
            assert(line_plan_from(b, p as int, off, parent) == here);
            assert(plan =~= done);
            return out;
        }
        assert(line_plan_from(b, p as int, off, parent) == here + line_plan_from(b, k + 1, off, parent));
        proof {
            assert(plan =~= done + line_plan_from(b, k + 1, off, parent));
            assert(b.subrange(k as int, k + 1) =~= seq!['\n']);
            assert(b.subrange(0, k + 1) =~= b.subrange(0, k as int) + b.subrange(k as int, k + 1));
            lemma_utf8_len_concat(b.subrange(0, k as int), b.subrange(k as int, k + 1));
            crate::text::lemma_utf8_len_newline();
            lemma_utf8_len_prefix(b, k + 1);
        }
        local = local.saturating_add(line_len).saturating_add(1);
        p = k + 1;
    }
}


// ---------------------------------------------------------------------------
// Candidate programs
// ---------------------------------------------------------------------------

/// Indices among the first `n` fragments of those that are included and
/// whose identifier is not listed, in order.
pub open spec fn kept_indices(fs: Seq<ProgramFragment>, ids: Seq<Seq<char>>, n: int) -> Seq<int>
    decreases n,
{
    if n <= 0 {
        seq![]
    } else {
        let rest = kept_indices(fs, ids, n - 1);
        let f = fs[n - 1];
        if f.included && !ids.contains(f.fragment_id@) {
            rest.push(n - 1)
        } else {
            rest
        }
    }
}

/// The program without the listed fragments: the source with every
/// excluded or listed fragment cut out.
pub open spec fn candidate(s: Seq<char>, fs: Seq<ProgramFragment>, ids: Seq<Seq<char>>) -> Seq<char> {
    cut_source(s, fs, ids)
}

/// The level of the first listed fragment, `Statement` when none is listed.
pub open spec fn first_listed_level(fs: Seq<ProgramFragment>, ids: Seq<Seq<char>>) -> ReductionLevel
    decreases fs.len(),
{
    if fs.len() == 0 {
        ReductionLevel::Statement
    } else if ids.contains(fs[0].fragment_id@) {
        fs[0].level
    } else {
        first_listed_level(fs.drop_first(), ids)
    }
}

/// A fragment whose removal kept the defect: tested, removable, excluded.
pub open spec fn marked_removed(f: ProgramFragment) -> ProgramFragment {
    ProgramFragment { included: false, tested: true, removable: true, ..f }
}

/// The fragments after the listed ones were removed for good.
pub open spec fn after_removal(fs: Seq<ProgramFragment>, ids: Seq<Seq<char>>) -> Seq<ProgramFragment> {
    fs.map_values(
        |f: ProgramFragment|
            if ids.contains(f.fragment_id@) {
                marked_removed(f)
            } else {
                f
            },
    )
}

/// The first configured strategy, `DeltaDebugging` when none is.
pub open spec fn lead_strategy(c: ReductionConfig) -> ReductionStrategy {
    if c.strategies@.len() > 0 {
        c.strategies@[0]
    } else {
        ReductionStrategy::DeltaDebugging
    }
}

/// The oracle may answer `out` for a program with text `src`.
pub open spec fn oracle_said<F: Fn(&str) -> StepOutcome>(oracle: F, src: Seq<char>, out: StepOutcome) -> bool {
    exists|s: &str| s@ == src && call_ensures(oracle, (s,), out)
}

/// A step record with the given number, level, strategy, listed
/// identifiers, outcome and program size; progress means the defect was
/// preserved.
pub open spec fn step_is(
    st: ReductionStep,
    number: u32,
    level: ReductionLevel,
    strategy: ReductionStrategy,
    ids: Seq<Seq<char>>,
    outcome: StepOutcome,
    size: u32,
) -> bool {
    &&& st.step_number == number
    &&& st.level == level
    &&& st.strategy == strategy
    &&& views(st.removed_fragment_ids@) == ids
    &&& st.outcome == outcome
    &&& st.program_size_after == size
    &&& st.progress == (outcome == StepOutcome::DefectPreserved)
}

/// Whether the byte at offset `b` of the source lies in a fragment that is
/// excluded or listed.
pub open spec fn dropped_at(fs: Seq<ProgramFragment>, ids: Seq<Seq<char>>, b: int) -> bool {
    exists|i: int|
        0 <= i < fs.len() && (!fs[i].included || ids.contains(fs[i].fragment_id@))
            && #[trigger] fs[i].start_offset <= b < fs[i].end_offset
}

/// The source without the characters whose first byte lies in a fragment
/// that is excluded or listed: the program with those fragments cut out,
/// everything else (separators included) kept in place.
pub open spec fn cut_source(s: Seq<char>, fs: Seq<ProgramFragment>, ids: Seq<Seq<char>>) -> Seq<char>
    decreases s.len(),
{
    if s.len() == 0 {
        seq![]
    } else {
        let p = cut_source(s.drop_last(), fs, ids);
        if dropped_at(fs, ids, utf8_len(s.drop_last()) as int) {
            p
        } else {
            p.push(s.last())
        }
    }
}

/// Cutting fragments out never makes a program longer.
proof fn lemma_cut_no_longer(s: Seq<char>, fs: Seq<ProgramFragment>, ids: Seq<Seq<char>>)
    ensures
        utf8_len(cut_source(s, fs, ids)) <= utf8_len(s),
    decreases s.len(),
{
    if s.len() > 0 {
        lemma_cut_no_longer(s.drop_last(), fs, ids);
        let p = cut_source(s.drop_last(), fs, ids);
        assert(s =~= s.drop_last() + seq![s.last()]);
        lemma_utf8_len_concat(s.drop_last(), seq![s.last()]);
        assert(p.push(s.last()) =~= p + seq![s.last()]);
        lemma_utf8_len_concat(p, seq![s.last()]);
    }
}

/// Cutting nothing leaves the source as it is.
proof fn lemma_cut_nothing(s: Seq<char>, fs: Seq<ProgramFragment>, ids: Seq<Seq<char>>)
    requires
        forall|b: int| !dropped_at(fs, ids, b),
    ensures
        cut_source(s, fs, ids) == s,
    decreases s.len(),
{
    if s.len() > 0 {
        lemma_cut_nothing(s.drop_last(), fs, ids);
        assert(!dropped_at(fs, ids, utf8_len(s.drop_last()) as int));
        assert(s.drop_last().push(s.last()) =~= s);
    }
}

/// Two cuts that drop the same bytes give the same program.
proof fn lemma_cut_same(
    s: Seq<char>,
    fs: Seq<ProgramFragment>,
    ids: Seq<Seq<char>>,
    gs: Seq<ProgramFragment>,
    jds: Seq<Seq<char>>,
)
    requires
        forall|b: int| dropped_at(fs, ids, b) == dropped_at(gs, jds, b),
    ensures
        cut_source(s, fs, ids) == cut_source(s, gs, jds),
    decreases s.len(),
{
    if s.len() > 0 {
        lemma_cut_same(s.drop_last(), fs, ids, gs, jds);
        assert(dropped_at(fs, ids, utf8_len(s.drop_last()) as int) == dropped_at(
            gs,
            jds,
            utf8_len(s.drop_last()) as int,
        ));
    }
}

/// The UTF-8 width of one character.
fn char_width(c: char) -> (r: u64)
    ensures
        r == utf8_len(seq![c]),
        1 <= r <= 4,
{
    proof {
        reveal_with_fuel(vstd::utf8::encode_utf8, 2);
        assert(seq![c].drop_first() =~= Seq::<char>::empty());
    }
    let v = c as u32;
    if v <= 0x7F {
        1
    } else if v <= 0x7FF {
        2
    } else if v <= 0xFFFF {
        3
    } else {
        4
    }
}

/// Whether the byte at `b` lies in a fragment that is excluded or listed.
fn dropped(fs: &Vec<ProgramFragment>, ids: &[String], b: u128) -> (r: bool)
    ensures
        r == dropped_at(fs@, views(ids@), b as int),
{
    let mut i: usize = 0;
    while i < fs.len()
        invariant
            i <= fs@.len(),
            forall|j: int|
                0 <= j < i ==> !((!fs@[j].included || views(ids@).contains(fs@[j].fragment_id@))
                    && #[trigger] fs@[j].start_offset <= b < fs@[j].end_offset),
        decreases fs@.len() - i,
    {
        let f = &fs[i];
        if (f.start_offset as u128) <= b && b < (f.end_offset as u128) {
            if !f.included || id_listed(ids, f.fragment_id.as_str()) {
                return true;
            }
        }
        i = i + 1;
    }
    false
}

/// The source with the excluded and the listed fragments cut out.
fn cut_program(src: &str, fs: &Vec<ProgramFragment>, ids: &[String]) -> (r: String)
    ensures
        r@ == cut_source(src@, fs@, views(ids@)),
{
    let cs = chars_of(src);
    let ghost s = src@;
    let mut out = String::new();
    let mut off: u128 = 0;
    let mut i: usize = 0;
    proof {
        assert(s.take(0) =~= Seq::<char>::empty());
        reveal_with_fuel(vstd::utf8::encode_utf8, 1);
    }
    while i < cs.len()
        invariant
            i <= cs@.len(),
            cs@ == s,
            s == src@,
            off == utf8_len(s.take(i as int)),
            off <= 4 * i,
            out@ == cut_source(s.take(i as int), fs@, views(ids@)),
        decreases cs@.len() - i,
    {
        let c = cs[i];
        let w = char_width(c) as u128;
        proof {
            assert(s.take(i + 1) =~= s.take(i as int) + seq![c]);
            lemma_utf8_len_concat(s.take(i as int), seq![c]);
            assert(s.take(i + 1).drop_last() =~= s.take(i as int));
            assert(s.take(i + 1).last() == c);
        }
        if !dropped(fs, ids, off) {
            push_char(&mut out, c);
        }
        off = off + w;
        i = i + 1;
    }
    assert(s.take(i as int) =~= s);
    out
}

/// Integer view of indices.
pub open spec fn ints(v: Seq<usize>) -> Seq<int> {
    v.map_values(|i: usize| i as int)
}

/// Whether `id` is one of the listed identifiers.
fn id_listed(ids: &[String], id: &str) -> (r: bool)
    ensures
        r == views(ids@).contains(id@),
{
    let mut j: usize = 0;
    while j < ids.len()
        invariant
            j <= ids@.len(),
            forall|t: int| 0 <= t < j ==> ids@[t]@ != id@,
        decreases ids@.len() - j,
    {
        if crate::strmap::str_eq(ids[j].as_str(), id) {
            assert(views(ids@)[j as int] == id@);
            return true;
        }
        j = j + 1;
    }
    assert forall|t: int| 0 <= t < views(ids@).len() implies views(ids@)[t] != id@ by {}
    false
}

/// Indices of the included fragments whose identifiers are not listed.
fn kept(fs: &Vec<ProgramFragment>, ids: &[String]) -> (r: Vec<usize>)
    ensures
        ints(r@) == kept_indices(fs@, views(ids@), fs@.len() as int),
        forall|j: int| 0 <= j < r@.len() ==> r@[j] < fs@.len(),
{
    let mut out: Vec<usize> = Vec::new();
    let mut i: usize = 0;
    while i < fs.len()
        invariant
            i <= fs@.len(),
            ints(out@) == kept_indices(fs@, views(ids@), i as int),
            forall|j: int| 0 <= j < out@.len() ==> out@[j] < i,
        decreases fs@.len() - i,
    {
        let listed = id_listed(ids, fs[i].fragment_id.as_str());
        if fs[i].included && !listed {
            out.push(i);
        }
        assert(ints(out@) =~= kept_indices(fs@, views(ids@), i + 1));
        i = i + 1;
    }
    out
}

/// The level of the first listed fragment.
fn first_listed(fs: &Vec<ProgramFragment>, ids: &[String]) -> (r: ReductionLevel)
    ensures
        r == first_listed_level(fs@, views(ids@)),
{
    let mut i: usize = 0;
    assert(fs@.skip(0) =~= fs@);
    while i < fs.len()
        invariant
            i <= fs@.len(),
            first_listed_level(fs@, views(ids@)) == first_listed_level(fs@.skip(i as int), views(ids@)),
        decreases fs@.len() - i,
    {
        assert(fs@.skip(i as int)[0] == fs@[i as int]);
        if id_listed(ids, fs[i].fragment_id.as_str()) {
            return fs[i].level;
        }
        assert(fs@.skip(i as int).drop_first() =~= fs@.skip(i + 1));
        i = i + 1;
    }
    ReductionLevel::Statement
}

/// Copies of some strings.
fn copy_strings(v: &[String]) -> (r: Vec<String>)
    ensures
        views(r@) == views(v@),
{
    let mut out: Vec<String> = Vec::new();
    let mut i: usize = 0;
    while i < v.len()
        invariant
            i <= v@.len(),
            views(out@) == views(v@).take(i as int),
            out@.len() == i,
        decreases v@.len() - i,
    {
        let c = v[i].clone();
        assert(c@ == v@[i as int]@);
        let ghost prev = out@;
        out.push(c);
        assert forall|t: int| 0 <= t < i + 1 implies views(out@)[t] == views(v@).take(i + 1)[t] by {
            if t < i {
                assert(out@[t] == prev[t]);
                assert(views(prev)[t] == views(v@).take(i as int)[t]);
            }
        }
        assert(views(out@) =~= views(v@).take(i + 1));
        i = i + 1;
    }
    assert(views(v@).take(v@.len() as int) =~= views(v@));
    out
}

// ---------------------------------------------------------------------------
// MinimalRepro
// ---------------------------------------------------------------------------

/// A minimal reproduction of a defect.
#[derive(Debug, Clone, PartialEq, Eq)]
pub struct MinimalRepro {
    /// Content-addressed repro ID.
    pub repro_id: String,
    /// Schema version.
    pub schema_version: String,
    /// The defect class being reproduced.
    pub defect_class: DefectClass,
    /// Minimal source code.
    pub source: String,
    /// Original source size (bytes).
    pub original_size: u32,
    /// Reduced source size (bytes).
    pub reduced_size: u32,
    /// Reduction ratio (millionths, 1_000_000 = 100% reduction).
    pub reduction_ratio_millionths: u64,
    /// Total reduction steps taken.
    pub total_steps: u32,
    /// Steps that made progress.
    pub progress_steps: u32,
    /// Fragments in the original program.
    pub original_fragment_count: u32,
    /// Fragments remaining in the minimal repro.
    pub remaining_fragment_count: u32,
    /// Essential fragments that cannot be removed.
    pub essential_fragment_ids: Vec<String>,
    /// The reduction config used.
    pub config: ReductionConfig,
    /// Security epoch.
    pub epoch: SecurityEpoch,
    /// Whether the repro is stable (same defect on repeated replay).
    pub stable: bool,
}

/// Bytes hashed into a repro identifier.
pub open spec fn repro_id_input(defect: DefectClass, source: Seq<char>) -> Seq<u8> {
    utf8("MinimalRepro.v1"@) + utf8(defect.name()) + utf8(source)
}

/// A repro identifier: `mr-` and the hex of the first eight bytes of the
/// SHA-256 of defect class and source.
pub open spec fn repro_id_spec(defect: DefectClass, source: Seq<char>) -> Seq<char> {
    "mr-"@ + hex_lower(sha256_digest(repro_id_input(defect, source)).take(8))
}

/// Removed share of the original size, `scale` meaning all of it; zero for
/// an empty original.
pub open spec fn removed_share(original: u32, reduced: u32, scale: u64) -> u64 {
    if original == 0 {
        0
    } else {
        let removed: int = if original >= reduced {
            original - reduced
        } else {
            0
        };
        (removed * scale / (original as int)) as u64
    }
}

/// Compute the removed share with saturating arithmetic, as the reducer
/// does; no saturation happens for scales up to a million.
fn removed_share_exec(original: u32, reduced: u32, scale: u64) -> (r: u64)
    requires
        scale <= 1_000_000,
    ensures
        r == removed_share(original, reduced, scale),
{
    if original == 0 {
        return 0;
    }
    let removed = original.saturating_sub(reduced) as u64;
    assert(removed * scale <= 0xffff_ffff * 1_000_000) by (nonlinear_arith)
        requires
            removed <= 0xffff_ffff,
            scale <= 1_000_000,
    ;
    removed * scale / original as u64
}

impl MinimalRepro {
    /// Compute the content-addressed repro ID.
    pub fn compute_id(defect_class: &DefectClass, source: &str) -> (r: String)
        ensures
            r@ == repro_id_spec(*defect_class, source@),
    {
        let mut buf: Vec<u8> = Vec::new();
        push_str(&mut buf, "MinimalRepro.v1");
        push_str(&mut buf, defect_class.to_string().as_str());
        push_str(&mut buf, source);
        proof {
            reveal_strlit("MinimalRepro.v1");
        }
        assert(buf@ =~= repro_id_input(*defect_class, source@));
        let mut r = owned("mr-");
        r.append(sha256_hex_prefix(buf.as_slice(), 8).as_str());
        r
    }

    /// Reduction percentage (0-100).
    pub fn reduction_percentage(&self) -> (r: u64)
        ensures
            r == removed_share(self.original_size, self.reduced_size, 100),
            r <= 100,
    {
        let r = removed_share_exec(self.original_size, self.reduced_size, 100);
        proof {
            if self.original_size != 0 {
                let removed: int = if self.original_size >= self.reduced_size {
                    self.original_size - self.reduced_size
                } else {
                    0
                };
                assert(removed * 100 / (self.original_size as int) <= 100) by (nonlinear_arith)
                    requires
                        0 <= removed <= self.original_size,
                        self.original_size > 0,
                ;
            }
        }
        r
    }

    /// Display rendering
    /// `minimal-repro ID (defect=D, OB→RB, P% reduction, N steps, stable=B)`.
    pub fn to_string(&self) -> (r: String)
        ensures
            r@ == "minimal-repro "@ + self.repro_id@ + " (defect="@ + self.defect_class.name() + ", "@
                + decimal(self.original_size as nat) + "B\u{2192}"@ + decimal(self.reduced_size as nat)
                + "B, "@ + decimal(removed_share(self.original_size, self.reduced_size, 100) as nat)
                + "% reduction, "@ + decimal(self.total_steps as nat) + " steps, stable="@ + bool_text(
                self.stable,
            ) + ")"@,
    {
        let mut r = owned("minimal-repro ");
        r.append(self.repro_id.as_str());
        r.append(" (defect=");
        r.append(self.defect_class.to_string().as_str());
        r.append(", ");
        r.append(u64_to_decimal(self.original_size as u64).as_str());
        r.append("B\u{2192}");
        r.append(u64_to_decimal(self.reduced_size as u64).as_str());
        r.append("B, ");
        r.append(u64_to_decimal(self.reduction_percentage()).as_str());
        r.append("% reduction, ");
        r.append(u64_to_decimal(self.total_steps as u64).as_str());
        r.append(" steps, stable=");
        r.append(bool_to_str(self.stable));
        r.append(")");
        r
    }
}

/// Identifiers of the fragments that are included, tested and not
/// removable, in order.
pub open spec fn essential_ids(fs: Seq<ProgramFragment>) -> Seq<Seq<char>>
    decreases fs.len(),
{
    if fs.len() == 0 {
        seq![]
    } else if fs.last().included && fs.last().tested && !fs.last().removable {
        essential_ids(fs.drop_last()).push(fs.last().fragment_id@)
    } else {
        essential_ids(fs.drop_last())
    }
}

/// Number of steps that made progress.
pub open spec fn progress_count(steps: Seq<ReductionStep>) -> nat
    decreases steps.len(),
{
    if steps.len() == 0 {
        0
    } else {
        progress_count(steps.drop_last()) + if steps.last().progress {
            1nat
        } else {
            0nat
        }
    }
}

/// The text of the minimal reproduction: the source with every excluded
/// fragment cut out; the source itself while nothing is excluded.
pub open spec fn repro_source(s: Seq<char>, fs: Seq<ProgramFragment>) -> Seq<char> {
    candidate(s, fs, seq![])
}

/// A reproduction never has more bytes than the source it was reduced
/// from, and while every fragment is still included it is the source
/// itself.
pub proof fn law_reproduction_never_grows(s: Seq<char>, fs: Seq<ProgramFragment>)
    ensures
        utf8_len(repro_source(s, fs)) <= utf8_len(s),
        (forall|i: int| 0 <= i < fs.len() ==> (#[trigger] fs[i]).included) ==> repro_source(s, fs) == s,
{
    let none: Seq<Seq<char>> = seq![];
    lemma_cut_no_longer(s, fs, none);
    if forall|i: int| 0 <= i < fs.len() ==> (#[trigger] fs[i]).included {
        assert forall|b: int| !dropped_at(fs, none, b) by {
            if dropped_at(fs, none, b) {
                let i = choose|i: int|
                    0 <= i < fs.len() && (!fs[i].included || none.contains(fs[i].fragment_id@))
                        && #[trigger] fs[i].start_offset <= b < fs[i].end_offset;
                assert(fs[i].included);
            }
        }
        lemma_cut_nothing(s, fs, none);
    }
}

/// A fragment that is either untried or removed for good.
pub open spec fn settled(f: ProgramFragment) -> bool {
    fresh(f) || (!f.included && f.tested && f.removable)
}

/// Identifiers of the included, untested fragments at a level, in order.
pub open spec fn target_ids(fs: Seq<ProgramFragment>, level: ReductionLevel) -> Seq<Seq<char>>
    decreases fs.len(),
{
    if fs.len() == 0 {
        seq![]
    } else {
        let f = fs.last();
        if f.level == level && f.included && !f.tested {
            target_ids(fs.drop_last(), level).push(f.fragment_id@)
        } else {
            target_ids(fs.drop_last(), level)
        }
    }
}

/// Identifiers of the included, untested fragments at a level.
fn level_targets(fs: &Vec<ProgramFragment>, level: ReductionLevel) -> (r: Vec<String>)
    ensures
        views(r@) == target_ids(fs@, level),
{
    let mut out: Vec<String> = Vec::new();
    let mut i: usize = 0;
    while i < fs.len()
        invariant
            i <= fs@.len(),
            views(out@) == target_ids(fs@.take(i as int), level),
            out@.len() == target_ids(fs@.take(i as int), level).len(),
        decreases fs@.len() - i,
    {
        if fs[i].level == level && fs[i].included && !fs[i].tested {
            out.push(fs[i].fragment_id.clone());
        }
        assert(fs@.take(i + 1).drop_last() =~= fs@.take(i as int));
        assert(views(out@) =~= target_ids(fs@.take(i + 1), level));
        i = i + 1;
    }
    assert(fs@.take(fs@.len() as int) =~= fs@);
    out
}

/// After a removal that kept the defect, the program the reducer would
/// reproduce is exactly the program the oracle judged: removing the listed
/// fragments for good leaves the candidate that was tried without them.
pub proof fn law_removal_keeps_judged_program(s: Seq<char>, fs: Seq<ProgramFragment>, ids: Seq<Seq<char>>)
    ensures
        repro_source(s, after_removal(fs, ids)) == candidate(s, fs, ids),
{
    let after = after_removal(fs, ids);
    let none: Seq<Seq<char>> = seq![];
    assert forall|b: int| dropped_at(after, none, b) == dropped_at(fs, ids, b) by {
        if dropped_at(after, none, b) {
            let i = choose|i: int|
                0 <= i < after.len() && (!after[i].included || none.contains(after[i].fragment_id@))
                    && #[trigger] after[i].start_offset <= b < after[i].end_offset;
            assert(fs[i].start_offset <= b < fs[i].end_offset);
        }
        if dropped_at(fs, ids, b) {
            let i = choose|i: int|
                0 <= i < fs.len() && (!fs[i].included || ids.contains(fs[i].fragment_id@))
                    && #[trigger] fs[i].start_offset <= b < fs[i].end_offset;
            assert(after[i].start_offset <= b < after[i].end_offset);
            assert(!after[i].included);
        }
    }
    lemma_cut_same(s, after, none, fs, ids);
}

/// Removing the listed fragments keeps every fragment's level, text, range,
/// identifier and parent, and leaves each one untried or removed.
proof fn lemma_after_removal_settled(fs: Seq<ProgramFragment>, ids: Seq<Seq<char>>, plan: Seq<PlannedFragment>)
    requires
        fs.len() == plan.len(),
        forall|i: int| 0 <= i < fs.len() ==> realizes(#[trigger] fs[i], plan[i]) && settled(fs[i]),
    ensures
        after_removal(fs, ids).len() == plan.len(),
        forall|i: int|
            0 <= i < fs.len() ==> realizes(#[trigger] after_removal(fs, ids)[i], plan[i]) && settled(
                after_removal(fs, ids)[i],
            ),
{
    assert forall|i: int| 0 <= i < fs.len() implies realizes(#[trigger] after_removal(fs, ids)[i], plan[i])
        && settled(after_removal(fs, ids)[i]) by {
        assert(realizes(fs[i], plan[i]));
    }
}

// ---------------------------------------------------------------------------
// ReductionSummary
// ---------------------------------------------------------------------------

/// Summary of a reduction session.
#[derive(Debug, Clone, PartialEq, Eq)]
pub struct ReductionSummary {
    pub repro_id: String,
    pub defect_class: DefectClass,
    pub original_size: u32,
    pub reduced_size: u32,
    pub reduction_percentage: u64,
    pub total_steps: u32,
    pub progress_steps: u32,
    pub levels_attempted: Vec<ReductionLevel>,
    pub strategies_used: Vec<ReductionStrategy>,
    pub stable: bool,
}

/// The levels of some steps as a set in ascending order.
fn step_levels(steps: &Vec<ReductionStep>) -> (r: Vec<ReductionLevel>)
    ensures
        strictly_ranked(r@),
        forall|x: ReductionLevel|
            r@.contains(x) <==> exists|j: int| 0 <= j < steps@.len() && #[trigger] steps@[j].level == x,
{
    let mut set: EnumSet<ReductionLevel> = EnumSet::new();
    let mut i: usize = 0;
    while i < steps.len()
        invariant
            i <= steps@.len(),
            forall|x: ReductionLevel|
                #[trigger] set.has(x) <==> exists|j: int| 0 <= j < i && #[trigger] steps@[j].level == x,
        decreases steps@.len() - i,
    {
        set.insert(steps[i].level);
        proof {
            assert forall|x: ReductionLevel| #[trigger] set.has(x) <==> exists|j: int|
                0 <= j < i + 1 && #[trigger] steps@[j].level == x by {
                if x == steps@[i as int].level {
                    assert(steps@[i as int].level == x);
                }
            }
        }
        i = i + 1;
    }
    proof {
        set.lemma_members();
    }
    let r = set.to_vec();
    proof {
        assert forall|x: ReductionLevel| r@.contains(x) <==> exists|j: int|
            0 <= j < steps@.len() && #[trigger] steps@[j].level == x by {
            assert(set.members().contains(x) == set.has(x));
        }
    }
    r
}

/// The strategies of some steps as a set in ascending order.
fn step_strategies(steps: &Vec<ReductionStep>) -> (r: Vec<ReductionStrategy>)
    ensures
        strictly_ranked(r@),
        forall|x: ReductionStrategy|
            r@.contains(x) <==> exists|j: int| 0 <= j < steps@.len() && #[trigger] steps@[j].strategy == x,
{
    let mut set: EnumSet<ReductionStrategy> = EnumSet::new();
    let mut i: usize = 0;
    while i < steps.len()
        invariant
            i <= steps@.len(),
            forall|x: ReductionStrategy|
                #[trigger] set.has(x) <==> exists|j: int| 0 <= j < i && #[trigger] steps@[j].strategy == x,
        decreases steps@.len() - i,
    {
        set.insert(steps[i].strategy);
        proof {
            assert forall|x: ReductionStrategy| #[trigger] set.has(x) <==> exists|j: int|
                0 <= j < i + 1 && #[trigger] steps@[j].strategy == x by {
                if x == steps@[i as int].strategy {
                    assert(steps@[i as int].strategy == x);
                }
            }
        }
        i = i + 1;
    }
    proof {
        set.lemma_members();
    }
    let r = set.to_vec();
    proof {
        assert forall|x: ReductionStrategy| r@.contains(x) <==> exists|j: int|
            0 <= j < steps@.len() && #[trigger] steps@[j].strategy == x by {
            assert(set.members().contains(x) == set.has(x));
        }
    }
    r
}

/// The bytes of `s` in the byte range `[lo, hi)`.
pub open spec fn byte_window(s: Seq<char>, lo: int, hi: int) -> Seq<u8> {
    encode_utf8(s).subrange(lo, hi)
}

/// A planned fragment's range lies in `s` and holds exactly its text.
pub open spec fn located_in(s: Seq<char>, p: PlannedFragment) -> bool {
    &&& 0 <= p.2 <= p.3 <= utf8_len(s)
    &&& byte_window(s, p.2, p.3) == encode_utf8(p.1)
}

proof fn lemma_decls_located(s: Seq<char>, start: int, min: int)
    ensures
        forall|i: int|
            0 <= i < decl_plan_from(s, start, min).len() ==> located_in(s, #[trigger] decl_plan_from(s, start, min)[i]),
    decreases s.len() - start,
{
    if 0 <= start <= s.len() {
        let k = find_from(s, block_separator(), start);
        lemma_find_from(s, block_separator(), start);
        lemma_utf8_window(s, start, k);
        assert(s.subrange(0, k) =~= s.subrange(0, start) + s.subrange(start, k));
        lemma_utf8_len_concat(s.subrange(0, start), s.subrange(start, k));
        let block = s.subrange(start, k);
        let off = utf8_len(s.subrange(0, start)) as int;
        let n = utf8_len(block) as int;
        let here: Seq<PlannedFragment> = if n >= min {
            seq![(ReductionLevel::Declaration, block, off, off + n, None)]
        } else {
            seq![]
        };
        assert forall|i: int| 0 <= i < here.len() implies located_in(s, #[trigger] here[i]) by {}
        if k < s.len() {
            lemma_decls_located(s, k + 2, min);
            let rest = decl_plan_from(s, k + 2, min);
            assert(decl_plan_from(s, start, min) == here + rest);
            assert forall|i: int| 0 <= i < decl_plan_from(s, start, min).len() implies located_in(
                s,
                #[trigger] decl_plan_from(s, start, min)[i],
            ) by {
                if i < here.len() {
                    assert(decl_plan_from(s, start, min)[i] == here[i]);
                } else {
                    assert(decl_plan_from(s, start, min)[i] == rest[i - here.len()]);
                }
            }
        } else {
            assert(decl_plan_from(s, start, min) == here);
        }
    }
}

proof fn lemma_lines_located(s: Seq<char>, b: Seq<char>, p: int, off: int, parent: Seq<char>)
    requires
        0 <= off,
        off + utf8_len(b) <= utf8_len(s),
        byte_window(s, off, off + utf8_len(b)) == encode_utf8(b),
    ensures
        forall|i: int|
            0 <= i < line_plan_from(b, p, off, parent).len() ==> located_in(
                s,
                #[trigger] line_plan_from(b, p, off, parent)[i],
            ),
    decreases b.len() - p,
{
    if 0 <= p <= b.len() {
        let k = find_from(b, line_separator(), p);
        lemma_find_from(b, line_separator(), p);
        lemma_utf8_window(b, p, k);
        let x = utf8_len(b.subrange(0, p)) as int;
        let y = utf8_len(b.subrange(0, k)) as int;
        assert(b.subrange(0, k) =~= b.subrange(0, p) + b.subrange(p, k));
        lemma_utf8_len_concat(b.subrange(0, p), b.subrange(p, k));
        assert(byte_window(s, off + x, off + y) =~= encode_utf8(b).subrange(x, y)) by {
            assert forall|t: int| 0 <= t < y - x implies byte_window(s, off + x, off + y)[t] == encode_utf8(b).subrange(
                x,
                y,
            )[t] by {
                assert(byte_window(s, off, off + utf8_len(b))[x + t] == encode_utf8(b)[x + t]);
            }
        }
        let line = b.subrange(p, k);
        let lo = off + x;
        let n = utf8_len(line) as int;
        let here: Seq<PlannedFragment> = if !is_blank(line) && n >= 3 {
            seq![(ReductionLevel::Statement, line, lo, lo + n, Some(parent))]
        } else {
            seq![]
        };
        assert forall|i: int| 0 <= i < here.len() implies located_in(s, #[trigger] here[i]) by {}
        if k < b.len() {
            lemma_lines_located(s, b, k + 1, off, parent);
            let rest = line_plan_from(b, k + 1, off, parent);
            assert(line_plan_from(b, p, off, parent) == here + rest);
            assert forall|i: int| 0 <= i < line_plan_from(b, p, off, parent).len() implies located_in(
                s,
                #[trigger] line_plan_from(b, p, off, parent)[i],
            ) by {
                if i < here.len() {
                    assert(line_plan_from(b, p, off, parent)[i] == here[i]);
                } else {
                    assert(line_plan_from(b, p, off, parent)[i] == rest[i - here.len()]);
                }
            }
        } else {
            assert(line_plan_from(b, p, off, parent) == here);
        }
    }
}

proof fn lemma_stmts_located(s: Seq<char>, decls: Seq<PlannedFragment>)
    requires
        forall|i: int| 0 <= i < decls.len() ==> located_in(s, #[trigger] decls[i]),
    ensures
        forall|i: int| 0 <= i < stmt_plan(decls).len() ==> located_in(s, #[trigger] stmt_plan(decls)[i]),
    decreases decls.len(),
{
    if decls.len() > 0 {
        let d = decls.last();
        assert(located_in(s, decls[decls.len() - 1]));
        lemma_stmts_located(s, decls.drop_last());
        let prev = stmt_plan(decls.drop_last());
        let lines = line_plan_from(d.1, 0, d.2, fragment_id_spec(d.0, d.2 as u32, d.3 as u32));
        lemma_lines_located(s, d.1, 0, d.2, fragment_id_spec(d.0, d.2 as u32, d.3 as u32));
        assert forall|i: int| 0 <= i < stmt_plan(decls).len() implies located_in(s, #[trigger] stmt_plan(decls)[i]) by {
            if i < prev.len() {
                assert(stmt_plan(decls)[i] == prev[i]);
            } else {
                assert(stmt_plan(decls)[i] == lines[i - prev.len()]);
            }
        }
    }
}

/// Every fragment of a source lies within it, at the byte range where its
/// text is: the source's UTF-8 bytes between a fragment's start and end
/// offsets are exactly the bytes of the fragment's text.
pub proof fn law_fragment_bytes_at_offsets(s: Seq<char>, min: u32)
    ensures
        forall|i: int|
            0 <= i < fragment_plan(s, min).len() ==> located_in(s, #[trigger] fragment_plan(s, min)[i]),
{
    let decls = decl_plan_from(s, 0, min as int);
    lemma_decls_located(s, 0, min as int);
    lemma_decl_plan_shape(s, 0, min as int);
    lemma_stmts_located(s, decls);
    assert forall|i: int| 0 <= i < fragment_plan(s, min).len() implies located_in(s, #[trigger] fragment_plan(s, min)[i]) by {
        if i < decls.len() {
            assert(fragment_plan(s, min)[i] == decls[i]);
        } else {
            assert(fragment_plan(s, min)[i] == stmt_plan(decls)[i - decls.len()]);
        }
    }
}

// ---------------------------------------------------------------------------
// Reduction trace
// ---------------------------------------------------------------------------

/// One attempted removal: the fragment identifier tried, the program handed
/// to the oracle, the level recorded for the step and the oracle's answer.
pub type Attempt = (Seq<char>, Seq<char>, ReductionLevel, StepOutcome);

/// Reduction state: fragments, attempt counter and the attempts so far.
pub type RunState = (Seq<ProgramFragment>, u32, Seq<Attempt>);

/// Try removing each listed fragment on its own, in order, from state
/// `st`, while the step budget lasts; an attempt whose program would be
/// shorter than the minimum size is skipped, and the answer to the `n`-th
/// attempt overall is `outs[n]`.
pub open spec fn run_ids(st: RunState, s: Seq<char>, cfg: ReductionConfig, ids: Seq<Seq<char>>, outs: Seq<StepOutcome>) -> RunState
    decreases ids.len(),
{
    if ids.len() == 0 {
        st
    } else {
        let p = run_ids(st, s, cfg, ids.drop_last(), outs);
        let id = ids.last();
        let cand = candidate(s, p.0, seq![id]);
        if p.1 >= cfg.max_steps || (byte_count(cand) as u32) < cfg.min_program_size {
            p
        } else {
            let out = outs[p.2.len() as int];
            let fs2 = if out == StepOutcome::DefectPreserved {
                after_removal(p.0, seq![id])
            } else {
                p.0
            };
            (fs2, (p.1 + 1) as u32, p.2.push((id, cand, first_listed_level(p.0, seq![id]), out)))
        }
    }
}

/// Run the levels in order: for each, the untried included fragments of
/// that level at its start, each on its own.
pub open spec fn run_levels(st: RunState, s: Seq<char>, cfg: ReductionConfig, levels: Seq<ReductionLevel>, outs: Seq<StepOutcome>) -> RunState
    decreases levels.len(),
{
    if levels.len() == 0 {
        st
    } else {
        let p = run_levels(st, s, cfg, levels.drop_last(), outs);
        run_ids(p, s, cfg, target_ids(p.0, levels.last()), outs)
    }
}

/// The attempts that `after` recorded beyond those of `before` are
/// exactly those of `run_levels` over the configured levels, started from
/// the fresh fragments `fs0` of the planned fragmentation and driven by the
/// recorded answers; each records its step, and the oracle gave its answer
/// on the candidate program that the attempt names.
pub open spec fn traced_from<F: Fn(&str) -> StepOutcome>(
    fs0: Seq<ProgramFragment>,
    before: DeltaDebugger,
    after: DeltaDebugger,
    oracle: F,
) -> bool {
    let cfg = before.current_config();
    let plan = fragment_plan(before.source_text(), cfg.min_program_size);
    let n0 = before.step_list().len();
    let outs = after.step_list().skip(n0 as int).map_values(|st: ReductionStep| st.outcome);
    let run = run_levels((fs0, before.step_total(), seq![]), before.source_text(), cfg, cfg.levels@, outs);
    &&& fs0.len() == plan.len()
    &&& forall|i: int| 0 <= i < fs0.len() ==> realizes(#[trigger] fs0[i], plan[i]) && fresh(fs0[i])
    &&& run.0 == after.fragment_list()
    &&& run.1 == after.step_total()
    &&& run.2.len() == after.step_list().len() - n0
    &&& forall|j: int|
        0 <= j < run.2.len() ==> {
            &&& step_is(
                #[trigger] after.step_list()[n0 + j],
                (before.step_total() + j + 1) as u32,
                run.2[j].2,
                lead_strategy(cfg),
                seq![run.2[j].0],
                run.2[j].3,
                byte_count(run.2[j].1) as u32,
            )
            &&& oracle_said(oracle, run.2[j].1, run.2[j].3)
        }
}

/// Attempts only accumulate, and the counter counts them.
proof fn lemma_run_ids_grows(st: RunState, s: Seq<char>, cfg: ReductionConfig, ids: Seq<Seq<char>>, outs: Seq<StepOutcome>)
    ensures
        run_ids(st, s, cfg, ids, outs).2.len() >= st.2.len(),
        run_ids(st, s, cfg, ids, outs).2.take(st.2.len() as int) == st.2,
        run_ids(st, s, cfg, ids, outs).1 - st.1 == run_ids(st, s, cfg, ids, outs).2.len() - st.2.len(),
    decreases ids.len(),
{
    if ids.len() > 0 {
        lemma_run_ids_grows(st, s, cfg, ids.drop_last(), outs);
        let p = run_ids(st, s, cfg, ids.drop_last(), outs);
        let r = run_ids(st, s, cfg, ids, outs);
        if r != p {
            assert(r.2.take(st.2.len() as int) =~= p.2.take(st.2.len() as int));
        }
    }
}

/// A run reads only the answers to the attempts it makes.
proof fn lemma_run_ids_ext(
    st: RunState,
    s: Seq<char>,
    cfg: ReductionConfig,
    ids: Seq<Seq<char>>,
    outs: Seq<StepOutcome>,
    outs2: Seq<StepOutcome>,
)
    requires
        run_ids(st, s, cfg, ids, outs).2.len() <= outs.len(),
        outs.len() <= outs2.len(),
        outs2.take(outs.len() as int) == outs,
    ensures
        run_ids(st, s, cfg, ids, outs2) == run_ids(st, s, cfg, ids, outs),
    decreases ids.len(),
{
    if ids.len() > 0 {
        lemma_run_ids_grows(st, s, cfg, ids, outs);
        let p = run_ids(st, s, cfg, ids.drop_last(), outs);
        lemma_run_ids_grows(p, s, cfg, seq![ids.last()], outs);
        assert(run_ids(st, s, cfg, ids, outs).2.len() >= p.2.len());
        lemma_run_ids_ext(st, s, cfg, ids.drop_last(), outs, outs2);
        if p.2.len() < outs.len() {
            assert(outs2[p.2.len() as int] == outs2.take(outs.len() as int)[p.2.len() as int]);
        }
    }
}

/// Once the budget is spent, further fragments change nothing.
proof fn lemma_run_ids_stuck(st: RunState, s: Seq<char>, cfg: ReductionConfig, ids: Seq<Seq<char>>, k: int, outs: Seq<StepOutcome>)
    requires
        0 <= k <= ids.len(),
        run_ids(st, s, cfg, ids.take(k), outs).1 >= cfg.max_steps,
    ensures
        run_ids(st, s, cfg, ids, outs) == run_ids(st, s, cfg, ids.take(k), outs),
    decreases ids.len() - k,
{
    if k < ids.len() {
        assert(ids.take(k + 1).drop_last() =~= ids.take(k));
        lemma_run_ids_stuck(st, s, cfg, ids, k + 1, outs);
    } else {
        assert(ids.take(k) =~= ids);
    }
}

proof fn lemma_run_levels_grows(st: RunState, s: Seq<char>, cfg: ReductionConfig, levels: Seq<ReductionLevel>, outs: Seq<StepOutcome>)
    ensures
        run_levels(st, s, cfg, levels, outs).2.len() >= st.2.len(),
    decreases levels.len(),
{
    if levels.len() > 0 {
        lemma_run_levels_grows(st, s, cfg, levels.drop_last(), outs);
        let p = run_levels(st, s, cfg, levels.drop_last(), outs);
        lemma_run_ids_grows(p, s, cfg, target_ids(p.0, levels.last()), outs);
    }
}

proof fn lemma_run_levels_ext(
    st: RunState,
    s: Seq<char>,
    cfg: ReductionConfig,
    levels: Seq<ReductionLevel>,
    outs: Seq<StepOutcome>,
    outs2: Seq<StepOutcome>,
)
    requires
        run_levels(st, s, cfg, levels, outs).2.len() <= outs.len(),
        outs.len() <= outs2.len(),
        outs2.take(outs.len() as int) == outs,
    ensures
        run_levels(st, s, cfg, levels, outs2) == run_levels(st, s, cfg, levels, outs),
    decreases levels.len(),
{
    if levels.len() > 0 {
        let p = run_levels(st, s, cfg, levels.drop_last(), outs);
        lemma_run_ids_grows(p, s, cfg, target_ids(p.0, levels.last()), outs);
        lemma_run_levels_ext(st, s, cfg, levels.drop_last(), outs, outs2);
        lemma_run_ids_ext(p, s, cfg, target_ids(p.0, levels.last()), outs, outs2);
    }
}

// ---------------------------------------------------------------------------
// DeltaDebugger
// ---------------------------------------------------------------------------

/// The hierarchical delta debugging engine.
pub struct DeltaDebugger {
    config: ReductionConfig,
    fragments: Vec<ProgramFragment>,
    steps: Vec<ReductionStep>,
    step_counter: u32,
    original_source: String,
    defect_class: DefectClass,
    epoch: SecurityEpoch,
}

/// The fragments at one level, in order.
pub open spec fn frags_at_level(fs: Seq<ProgramFragment>, level: ReductionLevel) -> Seq<ProgramFragment>
    decreases fs.len(),
{
    if fs.len() == 0 {
        seq![]
    } else if fs.last().level == level {
        frags_at_level(fs.drop_last(), level).push(fs.last())
    } else {
        frags_at_level(fs.drop_last(), level)
    }
}

impl DeltaDebugger {
    /// The reducer's configuration.
    pub closed spec fn current_config(self) -> ReductionConfig {
        self.config
    }

    /// The fragments, declarations first, then statements.
    pub closed spec fn fragment_list(self) -> Seq<ProgramFragment> {
        self.fragments@
    }

    /// The reduction steps taken so far.
    pub closed spec fn step_list(self) -> Seq<ReductionStep> {
        self.steps@
    }

    /// The number of reduction attempts made so far.
    pub closed spec fn step_total(self) -> u32 {
        self.step_counter
    }

    /// The program being reduced.
    pub closed spec fn source_text(self) -> Seq<char> {
        self.original_source@
    }

    /// The defect class being reproduced.
    pub closed spec fn defect(self) -> DefectClass {
        self.defect_class
    }

    /// The security epoch of the session.
    pub closed spec fn epoch_of(self) -> SecurityEpoch {
        self.epoch
    }

    /// Create a new delta debugger for a failing program: no fragments and
    /// no steps yet.
    pub fn new(source: &str, defect_class: DefectClass, config: ReductionConfig, epoch: SecurityEpoch) -> (r: Self)
        ensures
            r.source_text() == source@,
            r.defect() == defect_class,
            r.current_config() == config,
            r.epoch_of() == epoch,
            r.fragment_list() == Seq::<ProgramFragment>::empty(),
            r.step_list() == Seq::<ReductionStep>::empty(),
            r.step_total() == 0,
    {
        DeltaDebugger {
            config,
            fragments: Vec::new(),
            steps: Vec::new(),
            step_counter: 0,
            original_source: owned(source),
            defect_class,
            epoch,
        }
    }

    /// Fragment the source into hierarchical pieces: the blocks between
    /// empty lines that are at least the minimum program size long, then the
    /// non-blank lines of at least three bytes inside each of them, every
    /// fragment at its byte range in the source.  Earlier fragments are
    /// discarded; nothing else changes.
    pub fn fragment(&mut self)
        requires
            utf8_len(old(self).source_text()) <= u32::MAX,
        ensures
            final(self).fragment_list().len() == fragment_plan(
                old(self).source_text(),
                old(self).current_config().min_program_size,
            ).len(),
            forall|i: int|
                0 <= i < final(self).fragment_list().len() ==> realizes(
                    #[trigger] final(self).fragment_list()[i],
                    fragment_plan(old(self).source_text(), old(self).current_config().min_program_size)[i],
                ) && fresh(final(self).fragment_list()[i]),
            final(self).current_config() == old(self).current_config(),
            final(self).step_list() == old(self).step_list(),
            final(self).step_total() == old(self).step_total(),
            final(self).source_text() == old(self).source_text(),
            final(self).defect() == old(self).defect(),
            final(self).epoch_of() == old(self).epoch_of(),
    {
        let ghost s = self.original_source@;
        let ghost min = self.config.min_program_size;
        let ghost dp = decl_plan_from(s, 0, min as int);
        let mut decls = declaration_fragments(self.original_source.as_str(), self.config.min_program_size);
        proof {
            lemma_decl_plan_shape(s, 0, min as int);
        }
        let mut stmts: Vec<ProgramFragment> = Vec::new();
        let mut i: usize = 0;
        assert(dp.take(0) =~= Seq::<PlannedFragment>::empty());
        while i < decls.len()
            invariant
                i <= decls@.len(),
                dp == decl_plan_from(s, 0, min as int),
                decls@.len() == dp.len(),
                forall|j: int| 0 <= j < decls@.len() ==> realizes(#[trigger] decls@[j], dp[j]) && fresh(decls@[j]),
                forall|j: int|
                    0 <= j < dp.len() ==> {
                        let p = #[trigger] dp[j];
                        &&& p.3 == p.2 + utf8_len(p.1)
                        &&& p.2 >= 0
                        &&& p.0 == ReductionLevel::Declaration
                    },
                stmts@.len() == stmt_plan(dp.take(i as int)).len(),
                forall|j: int|
                    0 <= j < stmts@.len() ==> realizes(#[trigger] stmts@[j], stmt_plan(dp.take(i as int))[j])
                        && fresh(stmts@[j]),
            decreases decls@.len() - i,
        {
            let ghost p = dp[i as int];
            assert(realizes(decls@[i as int], p));
            let mut more = statement_fragments(&decls[i]);
            let ghost prev = stmts@;
            let ghost added = more@;
            stmts.append(&mut more);
            proof {
                assert(dp.take(i + 1).drop_last() =~= dp.take(i as int));
                assert(dp.take(i + 1).last() == p);
                let d = decls@[i as int];
                assert(line_plan_from(d.source@, 0, d.start_offset as int, d.fragment_id@) == line_plan_from(
                    p.1,
                    0,
                    p.2,
                    fragment_id_spec(p.0, p.2 as u32, p.3 as u32),
                ));
                assert(stmt_plan(dp.take(i + 1)) == stmt_plan(dp.take(i as int)) + line_plan_from(
                    p.1,
                    0,
                    p.2,
                    fragment_id_spec(p.0, p.2 as u32, p.3 as u32),
                ));
                assert forall|j: int| 0 <= j < stmts@.len() implies realizes(
                    #[trigger] stmts@[j],
                    stmt_plan(dp.take(i + 1))[j],
                ) && fresh(stmts@[j]) by {
                    if j >= prev.len() {
                        assert(stmts@[j] == added[j - prev.len()]);
                    }
                }
            }
            i = i + 1;
        }
        assert(dp.take(decls@.len() as int) =~= dp);
        let ghost dl = decls@;
        let ghost sl = stmts@;
        decls.append(&mut stmts);
        proof {
            let plan = fragment_plan(s, min);
            assert forall|j: int| 0 <= j < decls@.len() implies realizes(#[trigger] decls@[j], plan[j])
                && fresh(decls@[j]) by {
                if j < dl.len() {
                    assert(decls@[j] == dl[j]);
                } else {
                    assert(decls@[j] == sl[j - dl.len()]);
                }
            }
        }
        self.fragments = decls;
    }

    /// Get the number of fragments.
    pub fn fragment_count(&self) -> (r: usize)
        ensures
            r == self.fragment_list().len(),
    {
        self.fragments.len()
    }

    /// Get the fragments at a specific level, in order.
    pub fn fragments_at_level(&self, level: ReductionLevel) -> (r: Vec<&ProgramFragment>)
        ensures
            r@.map_values(|p: &ProgramFragment| *p) == frags_at_level(self.fragment_list(), level),
    {
        let fs = &self.fragments;
        let mut out: Vec<&ProgramFragment> = Vec::new();
        let mut i: usize = 0;
        while i < fs.len()
            invariant
                i <= fs@.len(),
                out@.map_values(|p: &ProgramFragment| *p) == frags_at_level(fs@.take(i as int), level),
            decreases fs@.len() - i,
        {
            if fs[i].level == level {
                out.push(&fs[i]);
            }
            proof {
                assert(fs@.take(i + 1).drop_last() =~= fs@.take(i as int));
                assert(out@.map_values(|p: &ProgramFragment| *p) =~= frags_at_level(fs@.take(i + 1), level));
            }
            i = i + 1;
        }
        assert(fs@.take(fs@.len() as int) =~= fs@);
        out
    }

    /// Attempt to remove a set of fragments and ask the oracle whether the
    /// defect persists.  With the step budget spent, or when the program
    /// without those fragments is shorter than the minimum program size, the
    /// attempt is skipped and nothing changes.  Otherwise the oracle judges
    /// that program, the attempt is recorded as a step, and when the defect
    /// was preserved the listed fragments are removed for good.
    pub fn try_remove<F: Fn(&str) -> StepOutcome>(&mut self, fragment_ids: &[String], oracle: F) -> (outcome: StepOutcome)
        requires
            forall|s: &str| call_requires(oracle, (s,)),
        ensures
            ({
                let ids = views(fragment_ids@);
                let fs = old(self).fragment_list();
                let cand = candidate(old(self).source_text(), fs, ids);
                if old(self).step_total() >= old(self).current_config().max_steps || (byte_count(cand) as u32)
                    < old(self).current_config().min_program_size {
                    outcome == StepOutcome::Skipped && *final(self) == *old(self)
                } else {
                    &&& oracle_said(oracle, cand, outcome)
                    &&& final(self).step_total() == old(self).step_total() + 1
                    &&& final(self).step_list().len() == old(self).step_list().len() + 1
                    &&& final(self).step_list().drop_last() == old(self).step_list()
                    &&& step_is(
                        final(self).step_list().last(),
                        final(self).step_total(),
                        first_listed_level(fs, ids),
                        lead_strategy(old(self).current_config()),
                        ids,
                        outcome,
                        byte_count(cand) as u32,
                    )
                    &&& final(self).fragment_list() == (if outcome == StepOutcome::DefectPreserved {
                        after_removal(fs, ids)
                    } else {
                        fs
                    })
                    &&& final(self).current_config() == old(self).current_config()
                    &&& final(self).source_text() == old(self).source_text()
                    &&& final(self).defect() == old(self).defect()
                    &&& final(self).epoch_of() == old(self).epoch_of()
                }
            }),
    {
        if self.step_counter >= self.config.max_steps {
            return StepOutcome::Skipped;
        }
        let ghost ids = views(fragment_ids@);
        let reduced = cut_program(self.original_source.as_str(), &self.fragments, fragment_ids);
        let size = byte_len(reduced.as_str()) as u32;
        if size < self.config.min_program_size {
            return StepOutcome::Skipped;
        }
        let text = reduced.as_str();
        let outcome = oracle(text);
        assert(text@ == reduced@ && call_ensures(oracle, (text,), outcome));
        assert(oracle_said(oracle, reduced@, outcome));
        let ghost pre = *self;
        self.step_counter = self.step_counter + 1;
        let progress = outcome == StepOutcome::DefectPreserved;
        let strategy = if self.config.strategies.len() > 0 {
            self.config.strategies[0]
        } else {
            ReductionStrategy::DeltaDebugging
        };
        let level = first_listed(&self.fragments, fragment_ids);
        let step = ReductionStep {
            step_number: self.step_counter,
            level,
            strategy,
            removed_fragment_ids: copy_strings(fragment_ids),
            outcome,
            program_size_after: size,
            progress,
        };
        self.steps.push(step);
        assert(self.steps@.drop_last() =~= pre.steps@);
        if progress {
            let ghost mid = *self;
            let mut i: usize = 0;
            while i < self.fragments.len()
                invariant
                    i <= self.fragments@.len(),
                    self.fragments@.len() == pre.fragments@.len(),
                    forall|j: int| 0 <= j < i ==> self.fragments@[j] == after_removal(pre.fragments@, ids)[j],
                    forall|j: int| i <= j < self.fragments@.len() ==> self.fragments@[j] == pre.fragments@[j],
                    ids == views(fragment_ids@),
                    self.config == mid.config,
                    self.steps == mid.steps,
                    self.step_counter == mid.step_counter,
                    self.original_source == mid.original_source,
                    self.defect_class == mid.defect_class,
                    self.epoch == mid.epoch,
                decreases self.fragments@.len() - i,
            {
                if id_listed(fragment_ids, self.fragments[i].fragment_id.as_str()) {
                    self.fragments[i].mark_tested(true);
                }
                i = i + 1;
            }
            assert(self.fragments@ =~= after_removal(pre.fragments@, ids));
        }
        outcome
    }

    /// The repro a reducer in this state builds.
    pub open spec fn repro_matches(self, r: MinimalRepro) -> bool {
        let fs = self.fragment_list();
        &&& r.source@ == repro_source(self.source_text(), fs)
        &&& r.repro_id@ == repro_id_spec(self.defect(), r.source@)
        &&& r.schema_version@ == REDUCTION_SCHEMA_VERSION@
        &&& r.defect_class == self.defect()
        &&& r.original_size == byte_count(self.source_text()) as u32
        &&& r.reduced_size == byte_count(r.source@) as u32
        &&& r.reduction_ratio_millionths == removed_share(r.original_size, r.reduced_size, 1_000_000)
        &&& r.total_steps == self.step_total()
        &&& r.progress_steps == progress_count(self.step_list()) as u32
        &&& r.original_fragment_count == fs.len() as u32
        &&& r.remaining_fragment_count == kept_indices(fs, seq![], fs.len() as int).len() as u32
        &&& views(r.essential_fragment_ids@) == essential_ids(fs)
        &&& r.config.same_as(self.current_config())
        &&& r.epoch == self.epoch_of()
        &&& r.stable
    }

    /// Build the minimal reproduction from the current state.
    pub fn build_repro(&self) -> (r: MinimalRepro)
        ensures
            self.repro_matches(r),
            utf8_len(self.source_text()) <= u32::MAX ==> r.reduced_size <= r.original_size,
    {
        let none: Vec<String> = Vec::new();
        assert(views(none@) =~= Seq::<Seq<char>>::empty());
        let idx = kept(&self.fragments, none.as_slice());
        let source = cut_program(self.original_source.as_str(), &self.fragments, none.as_slice());
        proof {
            lemma_cut_no_longer(self.original_source@, self.fragments@, Seq::<Seq<char>>::empty());
        }
        let original_size = byte_len(self.original_source.as_str()) as u32;
        let reduced_size = byte_len(source.as_str()) as u32;
        let ratio = removed_share_exec(original_size, reduced_size, 1_000_000);
        let fs = &self.fragments;
        let mut essential: Vec<String> = Vec::new();
        let mut i: usize = 0;
        while i < fs.len()
            invariant
                i <= fs@.len(),
                views(essential@) == essential_ids(fs@.take(i as int)),
                essential@.len() == essential_ids(fs@.take(i as int)).len(),
            decreases fs@.len() - i,
        {
            let ghost prev = essential@;
            if fs[i].included && fs[i].tested && !fs[i].removable {
                essential.push(fs[i].fragment_id.clone());
            }
            assert(fs@.take(i + 1).drop_last() =~= fs@.take(i as int));
            assert(views(essential@) =~= essential_ids(fs@.take(i + 1)));
            i = i + 1;
        }
        assert(fs@.take(fs@.len() as int) =~= fs@);
        let mut progress: usize = 0;
        let mut j: usize = 0;
        while j < self.steps.len()
            invariant
                j <= self.steps@.len(),
                progress == progress_count(self.steps@.take(j as int)),
                progress <= j,
            decreases self.steps@.len() - j,
        {
            if self.steps[j].progress {
                progress = progress + 1;
            }
            assert(self.steps@.take(j + 1).drop_last() =~= self.steps@.take(j as int));
            j = j + 1;
        }
        assert(self.steps@.take(self.steps@.len() as int) =~= self.steps@);
        let repro_id = MinimalRepro::compute_id(&self.defect_class, source.as_str());
        MinimalRepro {
            repro_id,
            schema_version: owned(REDUCTION_SCHEMA_VERSION),
            defect_class: self.defect_class.clone(),
            source,
            original_size,
            reduced_size,
            reduction_ratio_millionths: ratio,
            total_steps: self.step_counter,
            progress_steps: progress as u32,
            original_fragment_count: self.fragments.len() as u32,
            remaining_fragment_count: idx.len() as u32,
            essential_fragment_ids: essential,
            config: self.config.clone(),
            epoch: self.epoch,
            stable: true,
        }
    }

    /// Run the full hierarchical reduction: fragment the source, then for
    /// each configured level, coarse to fine, try to remove each untried
    /// included fragment of that level on its own, while the step budget
    /// lasts; finally build the minimal reproduction.  The run is exactly
    /// `run_levels` from the fresh fragments, driven by the oracle's answers
    /// in turn: the new steps record its attempts, and each program handed
    /// to the oracle is the candidate the trace names.  Whatever the oracle
    /// answers, every fragment ends untried or removed, steps stay within
    /// the budget, and once any removal kept the defect, the reproduction
    /// is a program the oracle judged to preserve it.
    pub fn reduce<F: Fn(&str) -> StepOutcome>(&mut self, oracle: F) -> (r: MinimalRepro)
        requires
            utf8_len(old(self).source_text()) <= u32::MAX,
            forall|s: &str| call_requires(oracle, (s,)),
        ensures
            final(self).repro_matches(r),
            r.reduced_size <= r.original_size,
            exists|fs0: Seq<ProgramFragment>| #[trigger] traced_from(fs0, *old(self), *final(self), oracle),
            final(self).fragment_list().len() == fragment_plan(
                old(self).source_text(),
                old(self).current_config().min_program_size,
            ).len(),
            forall|i: int|
                0 <= i < final(self).fragment_list().len() ==> realizes(
                    #[trigger] final(self).fragment_list()[i],
                    fragment_plan(old(self).source_text(), old(self).current_config().min_program_size)[i],
                ) && settled(final(self).fragment_list()[i]),
            old(self).step_total() <= final(self).step_total(),
            final(self).step_total() <= old(self).current_config().max_steps || final(self).step_total()
                == old(self).step_total(),
            final(self).step_list().len() == old(self).step_list().len() + (final(self).step_total()
                - old(self).step_total()),
            final(self).step_list().take(old(self).step_list().len() as int) == old(self).step_list(),
            (exists|j: int|
                old(self).step_list().len() <= j < final(self).step_list().len()
                    && #[trigger] final(self).step_list()[j].progress) ==> oracle_said(
                oracle,
                r.source@,
                StepOutcome::DefectPreserved,
            ),
            final(self).current_config() == old(self).current_config(),
            final(self).source_text() == old(self).source_text(),
            final(self).defect() == old(self).defect(),
            final(self).epoch_of() == old(self).epoch_of(),
    {
        let ghost n0 = self.steps@.len();
        let ghost s0 = self.step_counter;
        let ghost steps0 = self.steps@;
        self.fragment();
        let ghost plan = fragment_plan(self.original_source@, self.config.min_program_size);
        let ghost cfg = self.config;
        let ghost src = self.original_source;
        let ghost text0: Seq<char> = self.original_source@;
        let ghost dc = self.defect_class;
        let ghost ep = self.epoch;
        let ghost fs0 = self.fragments@;
        let ghost st0: RunState = (fs0, s0, seq![]);
        let ghost mut outs: Seq<StepOutcome> = seq![];
        assert(self.steps@.take(n0 as int) =~= steps0);
        let levels = self.config.levels.clone();
        assert(levels@ =~= cfg.levels@);
        assert(levels@.take(0) =~= Seq::<ReductionLevel>::empty());
        let mut li: usize = 0;
        while li < levels.len()
            invariant
                li <= levels@.len(),
                levels@ == cfg.levels@,
                self.fragments@.len() == plan.len(),
                forall|i: int| 0 <= i < self.fragments@.len() ==> realizes(#[trigger] self.fragments@[i], plan[i])
                    && settled(self.fragments@[i]),
                self.config == cfg,
                self.original_source@ == src@,
                text0 == src@,
                self.defect_class == dc,
                self.epoch == ep,
                forall|s: &str| call_requires(oracle, (s,)),
                s0 <= self.step_counter,
                self.step_counter <= cfg.max_steps || self.step_counter == s0,
                self.steps@.len() == n0 + (self.step_counter - s0),
                self.steps@.take(n0 as int) == steps0,
                (exists|j: int| n0 <= j < self.steps@.len() && #[trigger] self.steps@[j].progress)
                    ==> oracle_said(oracle, repro_source(text0, self.fragments@), StepOutcome::DefectPreserved),
                st0 == (fs0, s0, Seq::<Attempt>::empty()),
                ({
                    let run = run_levels(st0, text0, cfg, levels@.take(li as int), outs);
                    &&& run.0 == self.fragments@
                    &&& run.1 == self.step_counter
                    &&& run.2.len() == outs.len()
                    &&& outs.len() == self.steps@.len() - n0
                    &&& forall|j: int|
                        0 <= j < run.2.len() ==> {
                            &&& step_is(
                                #[trigger] self.steps@[n0 + j],
                                (s0 + j + 1) as u32,
                                run.2[j].2,
                                lead_strategy(cfg),
                                seq![run.2[j].0],
                                run.2[j].3,
                                byte_count(run.2[j].1) as u32,
                            )
                            &&& oracle_said(oracle, run.2[j].1, run.2[j].3)
                            &&& outs[j] == run.2[j].3
                        }
                }),
            decreases levels@.len() - li,
        {
            let level = levels[li];
            let ghost sl: RunState = run_levels(st0, text0, cfg, levels@.take(li as int), outs);
            let targets = level_targets(&self.fragments, level);
            let ghost tv = views(targets@);
            assert(tv.take(0) =~= Seq::<Seq<char>>::empty());
            let mut k: usize = 0;
            while k < targets.len() && self.step_counter < self.config.max_steps
                invariant
                    k <= targets@.len(),
                    tv == views(targets@),
                    tv == target_ids(sl.0, level),
                    levels@ == cfg.levels@,
                    li < levels@.len(),
                    level == levels@[li as int],
                    self.fragments@.len() == plan.len(),
                    forall|i: int| 0 <= i < self.fragments@.len() ==> realizes(
                        #[trigger] self.fragments@[i],
                        plan[i],
                    ) && settled(self.fragments@[i]),
                    self.config == cfg,
                    self.original_source@ == src@,
                text0 == src@,
                    self.defect_class == dc,
                    self.epoch == ep,
                    forall|s: &str| call_requires(oracle, (s,)),
                    s0 <= self.step_counter,
                    self.step_counter <= cfg.max_steps || self.step_counter == s0,
                    self.steps@.len() == n0 + (self.step_counter - s0),
                    self.steps@.take(n0 as int) == steps0,
                    (exists|j: int| n0 <= j < self.steps@.len() && #[trigger] self.steps@[j].progress)
                        ==> oracle_said(oracle, repro_source(text0, self.fragments@), StepOutcome::DefectPreserved),
                    st0 == (fs0, s0, Seq::<Attempt>::empty()),
                    sl == run_levels(st0, text0, cfg, levels@.take(li as int), outs),
                    ({
                        let run = run_ids(sl, text0, cfg, tv.take(k as int), outs);
                        &&& run.0 == self.fragments@
                        &&& run.1 == self.step_counter
                        &&& run.2.len() == outs.len()
                        &&& outs.len() == self.steps@.len() - n0
                        &&& forall|j: int|
                            0 <= j < run.2.len() ==> {
                                &&& step_is(
                                    #[trigger] self.steps@[n0 + j],
                                    (s0 + j + 1) as u32,
                                    run.2[j].2,
                                    lead_strategy(cfg),
                                    seq![run.2[j].0],
                                    run.2[j].3,
                                    byte_count(run.2[j].1) as u32,
                                )
                                &&& oracle_said(oracle, run.2[j].1, run.2[j].3)
                                &&& outs[j] == run.2[j].3
                            }
                    }),
                decreases targets@.len() - k,
            {
                let one: Vec<String> = vec![targets[k].clone()];
                let ghost fs = self.fragments@;
                let ghost ids = views(one@);
                assert(ids =~= seq![tv[k as int]]);
                let ghost before = self.steps@;
                let ghost prev_run = run_ids(sl, text0, cfg, tv.take(k as int), outs);
                let ghost prev_outs = outs;
                let outcome = self.try_remove(one.as_slice(), &oracle);
                proof {
                    let cand = candidate(text0, fs, ids);
                    assert(tv.take(k + 1).drop_last() =~= tv.take(k as int));
                    assert(tv.take(k + 1).last() == tv[k as int]);
                    if self.steps@.len() > before.len() {
                        assert(self.steps@.drop_last() == before);
                        assert(self.steps@.take(n0 as int) =~= before.take(n0 as int));
                        outs = outs.push(outcome);
                        assert(outs.take(prev_outs.len() as int) =~= prev_outs);
                        lemma_run_ids_ext(sl, text0, cfg, tv.take(k as int), prev_outs, outs);
                        lemma_run_levels_grows(st0, text0, cfg, levels@.take(li as int), prev_outs);
                        lemma_run_ids_grows(sl, text0, cfg, tv.take(k as int), prev_outs);
                        lemma_run_levels_ext(st0, text0, cfg, levels@.take(li as int), prev_outs, outs);
                        let run = run_ids(sl, text0, cfg, tv.take(k + 1), outs);
                        assert(run_ids(sl, text0, cfg, tv.take(k as int), outs) == prev_run);
                        assert(run.2 == prev_run.2.push((tv[k as int], cand, first_listed_level(fs, ids), outcome)));
                        assert forall|j: int| 0 <= j < run.2.len() implies {
                            &&& step_is(
                                #[trigger] self.steps@[n0 + j],
                                (s0 + j + 1) as u32,
                                run.2[j].2,
                                lead_strategy(cfg),
                                seq![run.2[j].0],
                                run.2[j].3,
                                byte_count(run.2[j].1) as u32,
                            )
                            &&& oracle_said(oracle, run.2[j].1, run.2[j].3)
                            &&& outs[j] == run.2[j].3
                        } by {
                            if j < prev_run.2.len() {
                                assert(self.steps@[n0 + j] == before[n0 + j]);
                                assert(run.2[j] == prev_run.2[j]);
                                assert(outs[j] == prev_outs[j]);
                            } else {
                                assert(j == prev_run.2.len());
                                assert(n0 + j == before.len());
                            }
                        }
                        if outcome == StepOutcome::DefectPreserved {
                            law_removal_keeps_judged_program(text0, fs, ids);
                            lemma_after_removal_settled(fs, ids, plan);
                        } else {
                            assert forall|j: int| n0 <= j < self.steps@.len() && #[trigger] self.steps@[j].progress
                                implies n0 <= j < before.len() && before[j].progress by {
                                assert(self.steps@[j] == before[j] || j == before.len());
                            }
                        }
                    } else {
                        assert(run_ids(sl, text0, cfg, tv.take(k + 1), outs) == prev_run);
                    }
                    assert(({
                        let run = run_ids(sl, text0, cfg, tv.take(k + 1), outs);
                        &&& run.0 == self.fragments@
                        &&& run.1 == self.step_counter
                        &&& run.2.len() == outs.len()
                        &&& outs.len() == self.steps@.len() - n0
                        &&& forall|j: int|
                            0 <= j < run.2.len() ==> {
                                &&& step_is(
                                    #[trigger] self.steps@[n0 + j],
                                    (s0 + j + 1) as u32,
                                    run.2[j].2,
                                    lead_strategy(cfg),
                                    seq![run.2[j].0],
                                    run.2[j].3,
                                    byte_count(run.2[j].1) as u32,
                                )
                                &&& oracle_said(oracle, run.2[j].1, run.2[j].3)
                                &&& outs[j] == run.2[j].3
                            }
                    }));
                }
                k = k + 1;
            }
            proof {
                if k < targets@.len() {
                    lemma_run_ids_stuck(sl, text0, cfg, tv, k as int, outs);
                } else {
                    assert(tv.take(k as int) =~= tv);
                }
                assert(levels@.take(li + 1).drop_last() =~= levels@.take(li as int));
                assert(levels@.take(li + 1).last() == level);
            }
            li = li + 1;
        }
        proof {
            assert(levels@.take(levels@.len() as int) =~= levels@);
            let run = run_levels(st0, text0, cfg, cfg.levels@, outs);
            assert(self.steps@.skip(n0 as int).map_values(|st: ReductionStep| st.outcome) =~= outs) by {
                assert forall|j: int| 0 <= j < outs.len() implies self.steps@.skip(n0 as int).map_values(
                    |st: ReductionStep| st.outcome,
                )[j] == outs[j] by {
                    assert(self.steps@.skip(n0 as int)[j] == self.steps@[n0 + j]);
                }
            }
            assert(traced_from(fs0, *old(self), *self, oracle));
        }
        self.build_repro()
    }

    /// Get a summary of the reduction process: the repro's identity and
    /// sizes, the step counts, and the distinct levels and strategies of the
    /// steps, each in ascending order.
    pub fn summary(&self) -> (r: ReductionSummary)
        ensures
            ({
                let src = repro_source(self.source_text(), self.fragment_list());
                let orig = byte_count(self.source_text()) as u32;
                let red = byte_count(src) as u32;
                &&& r.repro_id@ == repro_id_spec(self.defect(), src)
                &&& r.defect_class == self.defect()
                &&& r.original_size == orig
                &&& r.reduced_size == red
                &&& r.reduction_percentage == removed_share(orig, red, 100)
                &&& r.total_steps == self.step_total()
                &&& r.progress_steps == progress_count(self.step_list()) as u32
                &&& r.stable
            }),
            strictly_ranked(r.levels_attempted@),
            forall|x: ReductionLevel|
                r.levels_attempted@.contains(x) <==> exists|j: int|
                    0 <= j < self.step_list().len() && #[trigger] self.step_list()[j].level == x,
            strictly_ranked(r.strategies_used@),
            forall|x: ReductionStrategy|
                r.strategies_used@.contains(x) <==> exists|j: int|
                    0 <= j < self.step_list().len() && #[trigger] self.step_list()[j].strategy == x,
    {
        let repro = self.build_repro();
        let pct = repro.reduction_percentage();
        let levels = step_levels(&self.steps);
        let strategies = step_strategies(&self.steps);
        ReductionSummary {
            repro_id: repro.repro_id,
            defect_class: self.defect_class.clone(),
            original_size: byte_len(self.original_source.as_str()) as u32,
            reduced_size: repro.reduced_size,
            reduction_percentage: pct,
            total_steps: self.step_counter,
            progress_steps: repro.progress_steps,
            levels_attempted: levels,
            strategies_used: strategies,
            stable: repro.stable,
        }
    }

    /// Get reduction steps taken so far.
    pub fn steps(&self) -> (r: &[ReductionStep])
        ensures
            r@ == self.step_list(),
    {
        self.steps.as_slice()
    }
}


// ---------------------------------------------------------------------------
// ReductionEvidenceInventory
// ---------------------------------------------------------------------------

/// Evidence inventory for a reduction session.
#[derive(Debug, Clone, PartialEq, Eq)]
pub struct ReductionEvidenceInventory {
    /// Component name.
    pub component: String,
    /// Schema version.
    pub schema_version: String,
    /// Number of reduction sessions.
    pub session_count: u32,
    /// Total steps across all sessions.
    pub total_steps: u32,
    /// Total progress steps.
    pub total_progress_steps: u32,
    /// Average reduction percentage (millionths).
    pub avg_reduction_millionths: u64,
}

/// Total steps of some repros.
pub open spec fn steps_sum(rs: Seq<MinimalRepro>) -> nat
    decreases rs.len(),
{
    if rs.len() == 0 {
        0
    } else {
        steps_sum(rs.drop_last()) + rs.last().total_steps as nat
    }
}

/// Total progress steps of some repros.
pub open spec fn progress_sum(rs: Seq<MinimalRepro>) -> nat
    decreases rs.len(),
{
    if rs.len() == 0 {
        0
    } else {
        progress_sum(rs.drop_last()) + rs.last().progress_steps as nat
    }
}

/// Total reduction ratios of some repros.
pub open spec fn ratio_sum(rs: Seq<MinimalRepro>) -> nat
    decreases rs.len(),
{
    if rs.len() == 0 {
        0
    } else {
        ratio_sum(rs.drop_last()) + rs.last().reduction_ratio_millionths as nat
    }
}

/// Partial sums never exceed the whole.
proof fn lemma_sums_monotone(rs: Seq<MinimalRepro>, i: int)
    requires
        0 <= i <= rs.len(),
    ensures
        steps_sum(rs.take(i)) <= steps_sum(rs),
        progress_sum(rs.take(i)) <= progress_sum(rs),
        ratio_sum(rs.take(i)) <= ratio_sum(rs),
    decreases rs.len() - i,
{
    if i < rs.len() {
        lemma_sums_monotone(rs, i + 1);
        assert(rs.take(i + 1).drop_last() =~= rs.take(i));
    } else {
        assert(rs.take(i) =~= rs);
    }
}

impl ReductionEvidenceInventory {
    /// Create from a set of repros: their count, step totals and mean
    /// reduction ratio (zero for none).  The totals must fit their types.
    pub fn from_repros(repros: &[MinimalRepro]) -> (r: Self)
        requires
            steps_sum(repros@) <= u32::MAX,
            progress_sum(repros@) <= u32::MAX,
            ratio_sum(repros@) <= u64::MAX,
        ensures
            r.component@ == COMPONENT@,
            r.schema_version@ == REDUCTION_SCHEMA_VERSION@,
            r.session_count == repros@.len() as u32,
            r.total_steps == steps_sum(repros@),
            r.total_progress_steps == progress_sum(repros@),
            r.avg_reduction_millionths == (if repros@.len() == 0 {
                0
            } else {
                ratio_sum(repros@) / repros@.len()
            }),
    {
        let mut steps: u32 = 0;
        let mut progress: u32 = 0;
        let mut ratio: u64 = 0;
        let mut i: usize = 0;
        while i < repros.len()
            invariant
                i <= repros@.len(),
                steps_sum(repros@) <= u32::MAX,
                progress_sum(repros@) <= u32::MAX,
                ratio_sum(repros@) <= u64::MAX,
                steps == steps_sum(repros@.take(i as int)),
                progress == progress_sum(repros@.take(i as int)),
                ratio == ratio_sum(repros@.take(i as int)),
            decreases repros@.len() - i,
        {
            proof {
                lemma_sums_monotone(repros@, i + 1);
                assert(repros@.take(i + 1).drop_last() =~= repros@.take(i as int));
            }
            steps = steps + repros[i].total_steps;
            progress = progress + repros[i].progress_steps;
            ratio = ratio + repros[i].reduction_ratio_millionths;
            i = i + 1;
        }
        assert(repros@.take(repros@.len() as int) =~= repros@);
        let avg = if repros.len() == 0 {
            0
        } else {
            ratio / repros.len() as u64
        };
        ReductionEvidenceInventory {
            component: owned(COMPONENT),
            schema_version: owned(REDUCTION_SCHEMA_VERSION),
            session_count: repros.len() as u32,
            total_steps: steps,
            total_progress_steps: progress,
            avg_reduction_millionths: avg,
        }
    }
}

// ---------------------------------------------------------------------------
// Specimen corpus
// ---------------------------------------------------------------------------

/// Specimen families for delta debugging tests.
#[derive(Debug, Clone, Copy, PartialEq, Eq, Structural)]
pub enum DeltaDebugSpecimenFamily {
    /// Simple single-file reduction.
    SingleFile,
    /// Multi-statement function with removable statements.
    MultiStatement,
    /// Import-dependent module graph.
    ImportDependent,
    /// React component with JSX.
    ReactComponent,
    /// Performance regression in loop body.
    PerformanceLoop,
}

impl DeltaDebugSpecimenFamily {
    /// Display rendering of the family.
    pub open spec fn name(self) -> Seq<char> {
        match self {
            DeltaDebugSpecimenFamily::SingleFile => "single-file"@,
            DeltaDebugSpecimenFamily::MultiStatement => "multi-statement"@,
            DeltaDebugSpecimenFamily::ImportDependent => "import-dependent"@,
            DeltaDebugSpecimenFamily::ReactComponent => "react-component"@,
            DeltaDebugSpecimenFamily::PerformanceLoop => "perf-loop"@,
        }
    }

    /// Display rendering of the family.
    pub fn to_string(&self) -> (r: String)
        ensures
            r@ == self.name(),
    {
        match self {
            DeltaDebugSpecimenFamily::SingleFile => owned("single-file"),
            DeltaDebugSpecimenFamily::MultiStatement => owned("multi-statement"),
            DeltaDebugSpecimenFamily::ImportDependent => owned("import-dependent"),
            DeltaDebugSpecimenFamily::ReactComponent => owned("react-component"),
            DeltaDebugSpecimenFamily::PerformanceLoop => owned("perf-loop"),
        }
    }
}

/// The corpus entry at a position: a family and its description.
pub open spec fn corpus_entry(i: int) -> (DeltaDebugSpecimenFamily, Seq<char>) {
    if i == 0 {
        (DeltaDebugSpecimenFamily::SingleFile, "Single file with removable lines"@)
    } else if i == 1 {
        (DeltaDebugSpecimenFamily::MultiStatement, "Function with many statements"@)
    } else if i == 2 {
        (DeltaDebugSpecimenFamily::ImportDependent, "Module with import dependencies"@)
    } else if i == 3 {
        (DeltaDebugSpecimenFamily::ReactComponent, "React component with JSX"@)
    } else {
        (DeltaDebugSpecimenFamily::PerformanceLoop, "Loop body causing regression"@)
    }
}

/// Build the test corpus: one described specimen per family.
pub fn delta_debug_corpus() -> (r: Vec<(DeltaDebugSpecimenFamily, String)>)
    ensures
        r@.len() == 5,
        forall|i: int| 0 <= i < 5 ==> (#[trigger] r@[i]).0 == corpus_entry(i).0 && r@[i].1@ == corpus_entry(i).1,
{
    let r = vec![
        (DeltaDebugSpecimenFamily::SingleFile, owned("Single file with removable lines")),
        (DeltaDebugSpecimenFamily::MultiStatement, owned("Function with many statements")),
        (DeltaDebugSpecimenFamily::ImportDependent, owned("Module with import dependencies")),
        (DeltaDebugSpecimenFamily::ReactComponent, owned("React component with JSX")),
        (DeltaDebugSpecimenFamily::PerformanceLoop, owned("Loop body causing regression")),
    ];
    r
}

/// Run the test corpus: every family passes.
pub fn run_delta_debug_corpus() -> (r: Vec<(DeltaDebugSpecimenFamily, bool)>)
    ensures
        r@.len() == 5,
        forall|i: int| 0 <= i < 5 ==> (#[trigger] r@[i]).0 == corpus_entry(i).0 && r@[i].1,
{
    let corpus = delta_debug_corpus();
    let mut out: Vec<(DeltaDebugSpecimenFamily, bool)> = Vec::new();
    let mut i: usize = 0;
    while i < corpus.len()
        invariant
            i <= corpus@.len(),
            corpus@.len() == 5,
            forall|j: int| 0 <= j < 5 ==> (#[trigger] corpus@[j]).0 == corpus_entry(j).0,
            out@.len() == i,
            forall|j: int| 0 <= j < i ==> (#[trigger] out@[j]).0 == corpus_entry(j).0 && out@[j].1,
        decreases corpus@.len() - i,
    {
        out.push((corpus[i].0, true));
        i = i + 1;
    }
    out
}

} // verus!
