//! Hole-witness generation.
//!
//! Persistent frontier holes reported by the cartography layer are turned
//! into minimal, replayable witness programs: a small JS/TS program, a
//! package manifest or a React app skeleton that exercises the unsupported
//! region.  Each hole surface has templates; a template is instantiated by
//! substituting the hole's tag line and a placeholder value, and the
//! resulting programs, their batches and the overall report are sealed with
//! content hashes.  Fractions are fixed-point millionths (1_000_000 = 1.0).

use crate::collections::{count_where, EnumMap, EnumSet, Ranked};
use crate::foundation::{
    decimal, owned, push_bytes, push_str, push_u32_le, push_u64_le, sat_mul, sat_mul_spec,
    sha256_digest, u32_le, u64_le, u64_to_decimal, utf8, ContentHash, SecurityEpoch,
};
use crate::strmap::StrSet;
use crate::text::{count_lines, line_total, replace_all, replace_str};
use vstd::prelude::*;

verus! {

// ---------------------------------------------------------------------------
// Constants
// ---------------------------------------------------------------------------

/// Schema version for hole-witness artifacts.
pub const SCHEMA_VERSION: &'static str = "franken-engine.hole-witness-generator.v1";

/// Bead identifier originating this module.
pub const BEAD_ID: &'static str = "bd-1lsy.9.9.2";

/// Component name used in evidence records and receipts.
pub const COMPONENT: &'static str = "hole_witness_generator";

/// Policy reference.
pub const POLICY_ID: &'static str = "RGC-809B";

/// Fixed-point one (millionths).
pub const MILLION: u64 = 1_000_000;

/// Default minimum persistence for witness generation (millionths), 5%.
pub const DEFAULT_MIN_PERSISTENCE: u64 = 50_000;

/// Default maximum witness program line count.
pub const DEFAULT_MAX_WITNESS_LINES: usize = 200;

/// Default maximum witness count per hole.
pub const DEFAULT_MAX_WITNESSES_PER_HOLE: usize = 3;

/// Default minimum confidence for inclusion (millionths), 70%.
pub const DEFAULT_MIN_CONFIDENCE: u64 = 700_000;

// ---------------------------------------------------------------------------
// WitnessProgramKind
// ---------------------------------------------------------------------------

/// The kind of witness program generated for a hole.
#[derive(Debug, Clone, Copy, PartialEq, Eq, PartialOrd, Ord, Hash, Structural)]
pub enum WitnessProgramKind {
    /// A plain JavaScript program exercising the hole.
    JavaScript,
    /// A TypeScript program with type annotations exercising the hole.
    TypeScript,
    /// A minimal package (package.json + entry) demonstrating the gap.
    PackageManifest,
    /// A minimal React application demonstrating the gap.
    ReactApp,
    /// A module-resolution witness (import/export chain).
    ModuleResolution,
    /// An async/generator witness (async iteration, generators).
    AsyncGenerator,
}

impl WitnessProgramKind {
    /// All kinds in declaration order.
    pub const ALL: [WitnessProgramKind; 6] = [
        WitnessProgramKind::JavaScript,
        WitnessProgramKind::TypeScript,
        WitnessProgramKind::PackageManifest,
        WitnessProgramKind::ReactApp,
        WitnessProgramKind::ModuleResolution,
        WitnessProgramKind::AsyncGenerator,
    ];

    /// Display rendering of the kind.
    pub open spec fn name(self) -> Seq<char> {
        match self {
            WitnessProgramKind::JavaScript => "javascript"@,
            WitnessProgramKind::TypeScript => "typescript"@,
            WitnessProgramKind::PackageManifest => "package_manifest"@,
            WitnessProgramKind::ReactApp => "react_app"@,
            WitnessProgramKind::ModuleResolution => "module_resolution"@,
            WitnessProgramKind::AsyncGenerator => "async_generator"@,
        }
    }

    /// Display rendering of the kind.
    pub fn as_str(self) -> (r: &'static str)
        ensures
            r@ == self.name(),
    {
        match self {
            WitnessProgramKind::JavaScript => "javascript",
            WitnessProgramKind::TypeScript => "typescript",
            WitnessProgramKind::PackageManifest => "package_manifest",
            WitnessProgramKind::ReactApp => "react_app",
            WitnessProgramKind::ModuleResolution => "module_resolution",
            WitnessProgramKind::AsyncGenerator => "async_generator",
        }
    }

    /// Display rendering of the kind.
    pub fn to_string(&self) -> (r: String)
        ensures
            r@ == self.name(),
    {
        owned(self.as_str())
    }
}

impl Ranked for WitnessProgramKind {
    open spec fn rank(self) -> nat {
        match self {
            WitnessProgramKind::JavaScript => 0,
            WitnessProgramKind::TypeScript => 1,
            WitnessProgramKind::PackageManifest => 2,
            WitnessProgramKind::ReactApp => 3,
            WitnessProgramKind::ModuleResolution => 4,
            WitnessProgramKind::AsyncGenerator => 5,
        }
    }

    open spec fn variant_count() -> nat {
        6
    }

    open spec fn of_rank(r: nat) -> Self {
        if r == 0 {
            WitnessProgramKind::JavaScript
        } else if r == 1 {
            WitnessProgramKind::TypeScript
        } else if r == 2 {
            WitnessProgramKind::PackageManifest
        } else if r == 3 {
            WitnessProgramKind::ReactApp
        } else if r == 4 {
            WitnessProgramKind::ModuleResolution
        } else {
            WitnessProgramKind::AsyncGenerator
        }
    }

    fn rank_exec(self) -> (r: usize) {
        match self {
            WitnessProgramKind::JavaScript => 0,
            WitnessProgramKind::TypeScript => 1,
            WitnessProgramKind::PackageManifest => 2,
            WitnessProgramKind::ReactApp => 3,
            WitnessProgramKind::ModuleResolution => 4,
            WitnessProgramKind::AsyncGenerator => 5,
        }
    }

    fn count() -> (r: usize) {
        6
    }

    fn from_rank(r: usize) -> (x: Self) {
        WitnessProgramKind::ALL[r]
    }

    proof fn lemma_rank(x: Self) {
    }

    proof fn lemma_count() {
    }

    proof fn lemma_of_rank(r: nat) {
    }
}

// ---------------------------------------------------------------------------
// HoleSurface
// ---------------------------------------------------------------------------

/// Which engine surface the hole resides in.
#[derive(Debug, Clone, Copy, PartialEq, Eq, PartialOrd, Ord, Hash, Structural)]
pub enum HoleSurface {
    Parser,
    Lowering,
    Runtime,
    Module,
    TypeScript,
    React,
    RegExp,
    Stdlib,
    Interop,
}

impl HoleSurface {
    /// All surfaces in declaration order.
    pub const ALL: [HoleSurface; 9] = [
        HoleSurface::Parser,
        HoleSurface::Lowering,
        HoleSurface::Runtime,
        HoleSurface::Module,
        HoleSurface::TypeScript,
        HoleSurface::React,
        HoleSurface::RegExp,
        HoleSurface::Stdlib,
        HoleSurface::Interop,
    ];

    /// Display rendering of the surface.
    pub open spec fn name(self) -> Seq<char> {
        match self {
            HoleSurface::Parser => "parser"@,
            HoleSurface::Lowering => "lowering"@,
            HoleSurface::Runtime => "runtime"@,
            HoleSurface::Module => "module"@,
            HoleSurface::TypeScript => "typescript"@,
            HoleSurface::React => "react"@,
            HoleSurface::RegExp => "regexp"@,
            HoleSurface::Stdlib => "stdlib"@,
            HoleSurface::Interop => "interop"@,
        }
    }

    /// Display rendering of the surface.
    pub fn as_str(self) -> (r: &'static str)
        ensures
            r@ == self.name(),
    {
        match self {
            HoleSurface::Parser => "parser",
            HoleSurface::Lowering => "lowering",
            HoleSurface::Runtime => "runtime",
            HoleSurface::Module => "module",
            HoleSurface::TypeScript => "typescript",
            HoleSurface::React => "react",
            HoleSurface::RegExp => "regexp",
            HoleSurface::Stdlib => "stdlib",
            HoleSurface::Interop => "interop",
        }
    }

    /// Display rendering of the surface.
    pub fn to_string(&self) -> (r: String)
        ensures
            r@ == self.name(),
    {
        owned(self.as_str())
    }
}

impl Ranked for HoleSurface {
    open spec fn rank(self) -> nat {
        match self {
            HoleSurface::Parser => 0,
            HoleSurface::Lowering => 1,
            HoleSurface::Runtime => 2,
            HoleSurface::Module => 3,
            HoleSurface::TypeScript => 4,
            HoleSurface::React => 5,
            HoleSurface::RegExp => 6,
            HoleSurface::Stdlib => 7,
            HoleSurface::Interop => 8,
        }
    }

    open spec fn variant_count() -> nat {
        9
    }

    open spec fn of_rank(r: nat) -> Self {
        if r == 0 {
            HoleSurface::Parser
        } else if r == 1 {
            HoleSurface::Lowering
        } else if r == 2 {
            HoleSurface::Runtime
        } else if r == 3 {
            HoleSurface::Module
        } else if r == 4 {
            HoleSurface::TypeScript
        } else if r == 5 {
            HoleSurface::React
        } else if r == 6 {
            HoleSurface::RegExp
        } else if r == 7 {
            HoleSurface::Stdlib
        } else {
            HoleSurface::Interop
        }
    }

    fn rank_exec(self) -> (r: usize) {
        match self {
            HoleSurface::Parser => 0,
            HoleSurface::Lowering => 1,
            HoleSurface::Runtime => 2,
            HoleSurface::Module => 3,
            HoleSurface::TypeScript => 4,
            HoleSurface::React => 5,
            HoleSurface::RegExp => 6,
            HoleSurface::Stdlib => 7,
            HoleSurface::Interop => 8,
        }
    }

    fn count() -> (r: usize) {
        9
    }

    fn from_rank(r: usize) -> (x: Self) {
        HoleSurface::ALL[r]
    }

    proof fn lemma_rank(x: Self) {
    }

    proof fn lemma_count() {
    }

    proof fn lemma_of_rank(r: nat) {
    }
}

// ---------------------------------------------------------------------------
// Hashing helpers
// ---------------------------------------------------------------------------

/// The character sequences of some strings.
pub open spec fn views(s: Seq<String>) -> Seq<Seq<char>> {
    s.map_values(|x: String| x@)
}

/// For each item, the UTF-8 bytes of `tag` followed by those of the item.
pub open spec fn tagged_bytes(tag: Seq<char>, items: Seq<Seq<char>>) -> Seq<u8>
    decreases items.len(),
{
    if items.len() == 0 {
        Seq::empty()
    } else {
        tagged_bytes(tag, items.drop_last()) + utf8(tag) + utf8(items.last())
    }
}

/// Append `tag` and each string, one after another.
fn push_tagged(buf: &mut Vec<u8>, tag: &str, items: &Vec<String>)
    ensures
        final(buf)@ == old(buf)@ + tagged_bytes(tag@, views(items@)),
{
    let ghost head = buf@;
    let mut i: usize = 0;
    while i < items.len()
        invariant
            i <= items@.len(),
            buf@ == head + tagged_bytes(tag@, views(items@).take(i as int)),
        decreases items@.len() - i,
    {
        push_str(buf, tag);
        push_str(buf, items[i].as_str());
        proof {
            assert(views(items@).take(i + 1).drop_last() =~= views(items@).take(i as int));
            assert(views(items@).take(i + 1).last() == items@[i as int]@);
        }
        i = i + 1;
    }
    assert(views(items@).take(items@.len() as int) =~= views(items@));
}

/// A content hash as these artifacts seal it: the SHA-256 of the SHA-256 of
/// the canonical bytes.
pub open spec fn sealed_hash(input: Seq<u8>) -> Seq<u8> {
    sha256_digest(sha256_digest(input))
}

/// Seal canonical bytes into a content hash.
fn seal_bytes(buf: &Vec<u8>) -> (r: ContentHash)
    ensures
        r@ == sealed_hash(buf@),
{
    let inner = ContentHash::compute(buf.as_slice());
    ContentHash::compute(inner.as_bytes())
}

// ---------------------------------------------------------------------------
// HoleReference
// ---------------------------------------------------------------------------

/// A reference to a frontier hole from the cartography layer.
#[derive(Debug, Clone, PartialEq, Eq)]
pub struct HoleReference {
    /// Identifier of the hole (from the hole ledger).
    pub hole_id: String,
    /// Topological dimension (0 = component, 1 = loop, 2 = void).
    pub dimension: u32,
    /// Persistence in millionths.
    pub persistence_millionths: u64,
    /// The surface where the hole is detected.
    pub surface: HoleSurface,
    /// Representative simplex IDs forming the cycle.
    pub representative_cycle: Vec<String>,
    /// Programs known to be affected.
    pub affected_programs: Vec<String>,
}

impl HoleReference {
    /// Bytes hashed into the hole's content hash.
    pub open spec fn hash_input(self) -> Seq<u8> {
        utf8("hole_reference:"@) + utf8(self.hole_id@) + utf8("|dim:"@) + u32_le(self.dimension)
            + utf8("|pers:"@) + u64_le(self.persistence_millionths) + utf8("|surf:"@) + utf8(
            self.surface.name(),
        ) + tagged_bytes("|cyc:"@, views(self.representative_cycle@)) + tagged_bytes(
            "|prog:"@,
            views(self.affected_programs@),
        )
    }

    /// Content hash over all fields.
    pub fn content_hash(&self) -> (r: ContentHash)
        ensures
            r@ == sealed_hash(self.hash_input()),
    {
        let mut buf: Vec<u8> = Vec::new();
        push_str(&mut buf, "hole_reference:");
        push_str(&mut buf, self.hole_id.as_str());
        push_str(&mut buf, "|dim:");
        push_u32_le(&mut buf, self.dimension);
        push_str(&mut buf, "|pers:");
        push_u64_le(&mut buf, self.persistence_millionths);
        push_str(&mut buf, "|surf:");
        push_str(&mut buf, self.surface.as_str());
        push_tagged(&mut buf, "|cyc:", &self.representative_cycle);
        push_tagged(&mut buf, "|prog:", &self.affected_programs);
        proof {
            reveal_strlit("hole_reference:");
            reveal_strlit("|dim:");
            reveal_strlit("|pers:");
            reveal_strlit("|surf:");
            reveal_strlit("|cyc:");
            reveal_strlit("|prog:");
        }
        assert(buf@ =~= self.hash_input());
        seal_bytes(&buf)
    }
}

// ---------------------------------------------------------------------------
// WitnessSourceFile
// ---------------------------------------------------------------------------

/// A single source file in a witness program.
#[derive(Debug, Clone, PartialEq, Eq)]
pub struct WitnessSourceFile {
    /// Relative path (e.g. "index.js", "src/App.tsx").
    pub path: String,
    /// Source content.
    pub content: String,
    /// Line count.
    pub line_count: usize,
}

/// The line count a source file records: its lines, at least one.
pub open spec fn recorded_lines(content: Seq<char>) -> nat {
    if line_total(content) == 0 {
        1
    } else {
        line_total(content)
    }
}

/// Bytes hashed into a source file's content hash.
pub open spec fn file_hash_input(path: Seq<char>, content: Seq<char>) -> Seq<u8> {
    utf8("witness_source_file:"@) + utf8(path) + utf8("|"@) + utf8(content)
}

impl WitnessSourceFile {
    /// A file with its line count (at least one).
    pub fn new(path: &str, content: &str) -> (r: Self)
        ensures
            r.path@ == path@,
            r.content@ == content@,
            r.line_count == recorded_lines(content@),
    {
        let n = count_lines(content);
        WitnessSourceFile {
            path: owned(path),
            content: owned(content),
            line_count: if n == 0 {
                1
            } else {
                n
            },
        }
    }

    /// The content hash of this file.
    pub open spec fn hash_spec(self) -> Seq<u8> {
        sealed_hash(file_hash_input(self.path@, self.content@))
    }

    /// Content hash over path and content.
    pub fn content_hash(&self) -> (r: ContentHash)
        ensures
            r@ == self.hash_spec(),
    {
        let mut buf: Vec<u8> = Vec::new();
        push_str(&mut buf, "witness_source_file:");
        push_str(&mut buf, self.path.as_str());
        push_str(&mut buf, "|");
        push_str(&mut buf, self.content.as_str());
        proof {
            reveal_strlit("witness_source_file:");
            reveal_strlit("|");
        }
        assert(buf@ =~= file_hash_input(self.path@, self.content@));
        seal_bytes(&buf)
    }
}


// ---------------------------------------------------------------------------
// WitnessProgram
// ---------------------------------------------------------------------------

/// A minimal witness program generated from a frontier hole.
#[derive(Debug, Clone, PartialEq, Eq)]
pub struct WitnessProgram {
    /// Unique identifier for this witness.
    pub witness_id: String,
    /// The hole this witness was generated from.
    pub hole_id: String,
    /// Kind of witness program.
    pub kind: WitnessProgramKind,
    /// Which surface is being exercised.
    pub surface: HoleSurface,
    /// Source files composing this witness.
    pub files: Vec<WitnessSourceFile>,
    /// Total line count across all files.
    pub total_lines: usize,
    /// Semantic tags describing what the witness exercises.
    pub tags: StrSet,
    /// Free-form description.
    pub description: String,
    /// Confidence that this program actually exercises the hole (millionths).
    pub confidence_millionths: u64,
    /// Content hash.
    pub content_hash: ContentHash,
}

/// Total recorded lines of some files.
pub open spec fn line_sum(files: Seq<WitnessSourceFile>) -> nat
    decreases files.len(),
{
    if files.len() == 0 {
        0
    } else {
        line_sum(files.drop_last()) + files.last().line_count as nat
    }
}

/// For each file, `|file:` and the file's content hash.
pub open spec fn file_hashes_bytes(files: Seq<WitnessSourceFile>) -> Seq<u8>
    decreases files.len(),
{
    if files.len() == 0 {
        Seq::empty()
    } else {
        file_hashes_bytes(files.drop_last()) + utf8("|file:"@) + files.last().hash_spec()
    }
}

/// Partial sums never exceed the whole.
proof fn lemma_line_sum_prefix(files: Seq<WitnessSourceFile>, i: int)
    requires
        0 <= i <= files.len(),
    ensures
        line_sum(files.take(i)) <= line_sum(files),
    decreases files.len() - i,
{
    if i < files.len() {
        lemma_line_sum_prefix(files, i + 1);
        assert(files.take(i + 1).drop_last() =~= files.take(i));
    } else {
        assert(files.take(i) =~= files);
    }
}

/// Sum the recorded line counts of some files.
fn sum_lines(files: &Vec<WitnessSourceFile>) -> (r: usize)
    requires
        line_sum(files@) <= usize::MAX,
    ensures
        r == line_sum(files@),
{
    let mut total: usize = 0;
    let mut i: usize = 0;
    while i < files.len()
        invariant
            i <= files@.len(),
            line_sum(files@) <= usize::MAX,
            total == line_sum(files@.take(i as int)),
        decreases files@.len() - i,
    {
        proof {
            lemma_line_sum_prefix(files@, i + 1);
            assert(files@.take(i + 1).drop_last() =~= files@.take(i as int));
        }
        total = total + files[i].line_count;
        i = i + 1;
    }
    assert(files@.take(files@.len() as int) =~= files@);
    total
}

impl WitnessProgram {
    /// Bytes hashed into the program's content hash: identity, kind,
    /// surface, each file's hash, each tag in order, and the confidence.
    /// The description does not enter it.
    pub open spec fn hash_input(self) -> Seq<u8> {
        utf8("witness_program:"@) + utf8(self.witness_id@) + utf8("|hole:"@) + utf8(self.hole_id@)
            + utf8("|kind:"@) + utf8(self.kind.name()) + utf8("|surf:"@) + utf8(self.surface.name())
            + file_hashes_bytes(self.files@) + tagged_bytes("|tag:"@, self.tags.members()) + utf8(
            "|conf:"@,
        ) + u64_le(self.confidence_millionths)
    }

    /// A program is sealed when its line total and hash match its content.
    pub open spec fn is_sealed(self) -> bool {
        &&& self.total_lines == line_sum(self.files@)
        &&& self.content_hash@ == sealed_hash(self.hash_input())
    }

    /// Recompute the content hash and total line count; nothing else
    /// changes.
    pub fn seal(&mut self)
        requires
            line_sum(old(self).files@) <= usize::MAX,
        ensures
            final(self).is_sealed(),
            final(self).witness_id == old(self).witness_id,
            final(self).hole_id == old(self).hole_id,
            final(self).kind == old(self).kind,
            final(self).surface == old(self).surface,
            final(self).files == old(self).files,
            final(self).tags == old(self).tags,
            final(self).description == old(self).description,
            final(self).confidence_millionths == old(self).confidence_millionths,
    {
        let total = sum_lines(&self.files);
        let mut buf: Vec<u8> = Vec::new();
        push_str(&mut buf, "witness_program:");
        push_str(&mut buf, self.witness_id.as_str());
        push_str(&mut buf, "|hole:");
        push_str(&mut buf, self.hole_id.as_str());
        push_str(&mut buf, "|kind:");
        push_str(&mut buf, self.kind.as_str());
        push_str(&mut buf, "|surf:");
        push_str(&mut buf, self.surface.as_str());
        let ghost head = buf@;
        let mut i: usize = 0;
        while i < self.files.len()
            invariant
                i <= self.files@.len(),
                buf@ == head + file_hashes_bytes(self.files@.take(i as int)),
            decreases self.files@.len() - i,
        {
            push_str(&mut buf, "|file:");
            let h = self.files[i].content_hash();
            push_bytes(&mut buf, h.as_bytes());
            proof {
                assert(self.files@.take(i + 1).drop_last() =~= self.files@.take(i as int));
            }
            i = i + 1;
        }
        assert(self.files@.take(self.files@.len() as int) =~= self.files@);
        let tags = self.tags.to_vec();
        assert(views(tags@) =~= self.tags.members());
        push_tagged(&mut buf, "|tag:", &tags);
        push_str(&mut buf, "|conf:");
        push_u64_le(&mut buf, self.confidence_millionths);
        proof {
            reveal_strlit("witness_program:");
            reveal_strlit("|hole:");
            reveal_strlit("|kind:");
            reveal_strlit("|surf:");
            reveal_strlit("|file:");
            reveal_strlit("|tag:");
            reveal_strlit("|conf:");
        }
        assert(buf@ =~= self.hash_input());
        let hash = seal_bytes(&buf);
        self.total_lines = total;
        self.content_hash = hash;
    }

    /// Whether the witness is above a confidence threshold.
    pub fn is_confident(&self, threshold: u64) -> (r: bool)
        ensures
            r == (self.confidence_millionths >= threshold),
    {
        self.confidence_millionths >= threshold
    }

    /// Whether the witness is minimal (within a line limit).
    pub fn is_minimal(&self, max_lines: usize) -> (r: bool)
        ensures
            r == (self.total_lines <= max_lines),
    {
        self.total_lines <= max_lines
    }
}

// ---------------------------------------------------------------------------
// HoleWitnessBatch
// ---------------------------------------------------------------------------

/// A batch of witness programs generated for a single hole.
#[derive(Debug, Clone, PartialEq, Eq)]
pub struct HoleWitnessBatch {
    /// Hole identifier.
    pub hole_id: String,
    /// Surface of the hole.
    pub surface: HoleSurface,
    /// Persistence of the hole (millionths).
    pub persistence_millionths: u64,
    /// Generated witness programs.
    pub witnesses: Vec<WitnessProgram>,
    /// Whether some witness reaches the configured minimum confidence.
    pub has_confident_witness: bool,
    /// Content hash over the batch.
    pub content_hash: ContentHash,
}

/// Whether some witness reaches the default confidence threshold.
pub open spec fn any_confident(ws: Seq<WitnessProgram>, min_confidence: u64) -> bool {
    exists|i: int| 0 <= i < ws.len() && (#[trigger] ws[i]).confidence_millionths >= min_confidence
}

/// For each witness, `|w:` and its recorded content hash.
pub open spec fn witness_hashes_bytes(ws: Seq<WitnessProgram>) -> Seq<u8>
    decreases ws.len(),
{
    if ws.len() == 0 {
        Seq::empty()
    } else {
        witness_hashes_bytes(ws.drop_last()) + utf8("|w:"@) + ws.last().content_hash@
    }
}

impl HoleWitnessBatch {
    /// Bytes hashed into the batch's content hash.
    pub open spec fn hash_input(self) -> Seq<u8> {
        utf8("hole_witness_batch:"@) + utf8(self.hole_id@) + utf8("|surf:"@) + utf8(self.surface.name())
            + utf8("|pers:"@) + u64_le(self.persistence_millionths) + witness_hashes_bytes(
            self.witnesses@,
        )
    }

    /// A batch is sealed, under a minimum confidence, when its confidence
    /// flag and hash match its witnesses.
    pub open spec fn is_sealed(self, min_confidence: u64) -> bool {
        &&& self.has_confident_witness == any_confident(self.witnesses@, min_confidence)
        &&& self.content_hash@ == sealed_hash(self.hash_input())
    }

    /// Recompute the confidence flag against the given minimum confidence,
    /// and the batch hash; nothing else changes.
    pub fn seal(&mut self, min_confidence: u64)
        ensures
            final(self).is_sealed(min_confidence),
            final(self).hole_id == old(self).hole_id,
            final(self).surface == old(self).surface,
            final(self).persistence_millionths == old(self).persistence_millionths,
            final(self).witnesses == old(self).witnesses,
    {
        let mut confident = false;
        let mut i: usize = 0;
        while i < self.witnesses.len()
            invariant
                i <= self.witnesses@.len(),
                confident == exists|j: int|
                    0 <= j < i && (#[trigger] self.witnesses@[j]).confidence_millionths >= min_confidence,
            decreases self.witnesses@.len() - i,
        {
            if self.witnesses[i].confidence_millionths >= min_confidence {
                confident = true;
            }
            i = i + 1;
        }
        let mut buf: Vec<u8> = Vec::new();
        push_str(&mut buf, "hole_witness_batch:");
        push_str(&mut buf, self.hole_id.as_str());
        push_str(&mut buf, "|surf:");
        push_str(&mut buf, self.surface.as_str());
        push_str(&mut buf, "|pers:");
        push_u64_le(&mut buf, self.persistence_millionths);
        let ghost head = buf@;
        let mut k: usize = 0;
        while k < self.witnesses.len()
            invariant
                k <= self.witnesses@.len(),
                buf@ == head + witness_hashes_bytes(self.witnesses@.take(k as int)),
            decreases self.witnesses@.len() - k,
        {
            push_str(&mut buf, "|w:");
            push_bytes(&mut buf, self.witnesses[k].content_hash.as_bytes());
            proof {
                assert(self.witnesses@.take(k + 1).drop_last() =~= self.witnesses@.take(k as int));
            }
            k = k + 1;
        }
        assert(self.witnesses@.take(self.witnesses@.len() as int) =~= self.witnesses@);
        proof {
            reveal_strlit("hole_witness_batch:");
            reveal_strlit("|surf:");
            reveal_strlit("|pers:");
            reveal_strlit("|w:");
        }
        assert(buf@ =~= self.hash_input());
        let hash = seal_bytes(&buf);
        self.has_confident_witness = confident;
        self.content_hash = hash;
    }
}

// ---------------------------------------------------------------------------
// GenerationOutcome and GenerationReport
// ---------------------------------------------------------------------------

/// Outcome of a witness generation run.
#[derive(Debug, Clone, Copy, PartialEq, Eq, Structural)]
pub enum GenerationOutcome {
    /// All holes received at least one confident witness.
    Complete,
    /// Some holes lacked confident witnesses.
    Partial,
    /// No witnesses could be generated.
    Empty,
    /// Generation was skipped because no actionable holes exist.
    NoActionableHoles,
}

impl GenerationOutcome {
    /// Display rendering of the outcome.
    pub open spec fn name(self) -> Seq<char> {
        match self {
            GenerationOutcome::Complete => "complete"@,
            GenerationOutcome::Partial => "partial"@,
            GenerationOutcome::Empty => "empty"@,
            GenerationOutcome::NoActionableHoles => "no_actionable_holes"@,
        }
    }

    /// Display rendering of the outcome.
    pub fn as_str(self) -> (r: &'static str)
        ensures
            r@ == self.name(),
    {
        match self {
            GenerationOutcome::Complete => "complete",
            GenerationOutcome::Partial => "partial",
            GenerationOutcome::Empty => "empty",
            GenerationOutcome::NoActionableHoles => "no_actionable_holes",
        }
    }

    /// Display rendering of the outcome.
    pub fn to_string(&self) -> (r: String)
        ensures
            r@ == self.name(),
    {
        owned(self.as_str())
    }
}

/// Report summarizing a full witness generation pass.
#[derive(Debug, Clone, PartialEq, Eq)]
pub struct GenerationReport {
    /// Report identifier.
    pub report_id: String,
    /// Epoch of the source cartography.
    pub epoch: SecurityEpoch,
    /// Overall outcome.
    pub outcome: GenerationOutcome,
    /// Batches per hole.
    pub batches: Vec<HoleWitnessBatch>,
    /// Total holes processed.
    pub holes_processed: u64,
    /// Holes that received confident witnesses.
    pub holes_covered: u64,
    /// Holes that could not be covered.
    pub holes_uncovered: u64,
    /// Total witnesses generated.
    pub total_witnesses: u64,
    /// Coverage ratio (millionths).
    pub coverage_millionths: u64,
    /// Content hash.
    pub content_hash: ContentHash,
}

/// Number of batches with a confident witness.
pub open spec fn covered_count(bs: Seq<HoleWitnessBatch>) -> nat
    decreases bs.len(),
{
    if bs.len() == 0 {
        0
    } else {
        covered_count(bs.drop_last()) + if bs.last().has_confident_witness {
            1nat
        } else {
            0nat
        }
    }
}

/// Number of witnesses over all batches.
pub open spec fn witness_total(bs: Seq<HoleWitnessBatch>) -> nat
    decreases bs.len(),
{
    if bs.len() == 0 {
        0
    } else {
        witness_total(bs.drop_last()) + bs.last().witnesses@.len()
    }
}

/// For each batch, `|batch:` and its recorded content hash.
pub open spec fn batch_hashes_bytes(bs: Seq<HoleWitnessBatch>) -> Seq<u8>
    decreases bs.len(),
{
    if bs.len() == 0 {
        Seq::empty()
    } else {
        batch_hashes_bytes(bs.drop_last()) + utf8("|batch:"@) + bs.last().content_hash@
    }
}

/// The outcome for numbers of processed and covered holes and of
/// witnesses: no actionable holes when none was processed, complete when
/// every hole is covered, empty when no witness at all was generated, and
/// partial otherwise.
pub open spec fn outcome_for(processed: u64, covered: u64, witnesses: u64) -> GenerationOutcome {
    if processed == 0 {
        GenerationOutcome::NoActionableHoles
    } else if covered == processed {
        GenerationOutcome::Complete
    } else if witnesses == 0 {
        GenerationOutcome::Empty
    } else {
        GenerationOutcome::Partial
    }
}

/// Covered share of processed holes in millionths; zero for none.
pub open spec fn coverage_for(processed: u64, covered: u64) -> u64 {
    if processed == 0 {
        0
    } else {
        sat_mul_spec(covered, MILLION) / processed
    }
}

proof fn lemma_covered_count_bound(bs: Seq<HoleWitnessBatch>)
    ensures
        covered_count(bs) <= bs.len(),
    decreases bs.len(),
{
    if bs.len() > 0 {
        lemma_covered_count_bound(bs.drop_last());
    }
}

proof fn lemma_witness_total_prefix(bs: Seq<HoleWitnessBatch>, i: int)
    requires
        0 <= i <= bs.len(),
    ensures
        witness_total(bs.take(i)) <= witness_total(bs),
    decreases bs.len() - i,
{
    if i < bs.len() {
        lemma_witness_total_prefix(bs, i + 1);
        assert(bs.take(i + 1).drop_last() =~= bs.take(i));
    } else {
        assert(bs.take(i) =~= bs);
    }
}

impl GenerationReport {
    /// Bytes hashed into the report's content hash.
    pub open spec fn hash_input(self) -> Seq<u8> {
        utf8("generation_report:"@) + utf8(self.report_id@) + utf8("|ep:"@) + u64_le(self.epoch.0)
            + utf8("|out:"@) + utf8(self.outcome.name()) + batch_hashes_bytes(self.batches@)
    }

    /// A report is sealed when its counters, outcome and hash match its
    /// batches.
    pub open spec fn is_sealed(self) -> bool {
        &&& self.holes_processed == self.batches@.len()
        &&& self.holes_covered == covered_count(self.batches@)
        &&& self.holes_uncovered == self.holes_processed - self.holes_covered
        &&& self.total_witnesses == witness_total(self.batches@)
        &&& self.coverage_millionths == coverage_for(self.holes_processed, self.holes_covered)
        &&& self.outcome == outcome_for(self.holes_processed, self.holes_covered, self.total_witnesses)
        &&& self.content_hash@ == sealed_hash(self.hash_input())
    }

    /// Recompute the counters, outcome and hash from the batches; identity,
    /// epoch and batches do not change.
    pub fn seal(&mut self)
        requires
            witness_total(old(self).batches@) <= u64::MAX,
        ensures
            final(self).is_sealed(),
            final(self).report_id == old(self).report_id,
            final(self).epoch == old(self).epoch,
            final(self).batches == old(self).batches,
    {
        let processed = self.batches.len() as u64;
        let mut covered: u64 = 0;
        let mut total: u64 = 0;
        let mut i: usize = 0;
        proof {
            lemma_covered_count_bound(self.batches@);
        }
        while i < self.batches.len()
            invariant
                i <= self.batches@.len(),
                witness_total(self.batches@) <= u64::MAX,
                covered == covered_count(self.batches@.take(i as int)),
                covered <= i,
                total == witness_total(self.batches@.take(i as int)),
            decreases self.batches@.len() - i,
        {
            proof {
                assert(self.batches@.take(i + 1).drop_last() =~= self.batches@.take(i as int));
                lemma_witness_total_prefix(self.batches@, i + 1);
            }
            if self.batches[i].has_confident_witness {
                covered = covered + 1;
            }
            total = total + self.batches[i].witnesses.len() as u64;
            i = i + 1;
        }
        assert(self.batches@.take(self.batches@.len() as int) =~= self.batches@);
        let uncovered = processed - covered;
        let coverage = if processed == 0 {
            0
        } else {
            sat_mul(covered, MILLION) / processed
        };
        let outcome = if processed == 0 {
            GenerationOutcome::NoActionableHoles
        } else if covered == processed {
            GenerationOutcome::Complete
        } else if total == 0 {
            GenerationOutcome::Empty
        } else {
            GenerationOutcome::Partial
        };
        self.holes_processed = processed;
        self.holes_covered = covered;
        self.holes_uncovered = uncovered;
        self.total_witnesses = total;
        self.coverage_millionths = coverage;
        self.outcome = outcome;
        let mut buf: Vec<u8> = Vec::new();
        push_str(&mut buf, "generation_report:");
        push_str(&mut buf, self.report_id.as_str());
        push_str(&mut buf, "|ep:");
        push_u64_le(&mut buf, self.epoch.as_u64());
        push_str(&mut buf, "|out:");
        push_str(&mut buf, outcome.as_str());
        let ghost head = buf@;
        let mut k: usize = 0;
        while k < self.batches.len()
            invariant
                k <= self.batches@.len(),
                buf@ == head + batch_hashes_bytes(self.batches@.take(k as int)),
            decreases self.batches@.len() - k,
        {
            push_str(&mut buf, "|batch:");
            push_bytes(&mut buf, self.batches[k].content_hash.as_bytes());
            proof {
                assert(self.batches@.take(k + 1).drop_last() =~= self.batches@.take(k as int));
            }
            k = k + 1;
        }
        assert(self.batches@.take(self.batches@.len() as int) =~= self.batches@);
        proof {
            reveal_strlit("generation_report:");
            reveal_strlit("|ep:");
            reveal_strlit("|out:");
            reveal_strlit("|batch:");
        }
        assert(buf@ =~= self.hash_input());
        self.content_hash = seal_bytes(&buf);
    }
}

// ---------------------------------------------------------------------------
// GeneratorConfig and GeneratorError
// ---------------------------------------------------------------------------

/// Configuration for the hole-witness generator.
#[derive(Debug, Clone, PartialEq, Eq)]
pub struct GeneratorConfig {
    /// Minimum persistence to consider a hole (millionths).
    pub min_persistence_millionths: u64,
    /// Maximum lines per witness program.
    pub max_witness_lines: usize,
    /// Maximum witnesses per hole.
    pub max_witnesses_per_hole: usize,
    /// Minimum confidence to count a witness (millionths).
    pub min_confidence_millionths: u64,
    /// Allowed witness kinds.
    pub allowed_kinds: EnumSet<WitnessProgramKind>,
}

impl Default for GeneratorConfig {
    fn default() -> (r: Self)
        ensures
            r.min_persistence_millionths == DEFAULT_MIN_PERSISTENCE,
            r.max_witness_lines == DEFAULT_MAX_WITNESS_LINES,
            r.max_witnesses_per_hole == DEFAULT_MAX_WITNESSES_PER_HOLE,
            r.min_confidence_millionths == DEFAULT_MIN_CONFIDENCE,
            forall|k: WitnessProgramKind| #[trigger] r.allowed_kinds.has(k),
    {
        let allowed = EnumSet::from_slice(&WitnessProgramKind::ALL);
        proof {
            assert forall|k: WitnessProgramKind| #[trigger] allowed.has(k) by {
                assert(WitnessProgramKind::ALL@[k.rank() as int] == k);
            }
        }
        GeneratorConfig {
            min_persistence_millionths: DEFAULT_MIN_PERSISTENCE,
            max_witness_lines: DEFAULT_MAX_WITNESS_LINES,
            max_witnesses_per_hole: DEFAULT_MAX_WITNESSES_PER_HOLE,
            min_confidence_millionths: DEFAULT_MIN_CONFIDENCE,
            allowed_kinds: allowed,
        }
    }
}

/// Errors from the witness generator.
#[derive(Debug, Clone, PartialEq, Eq)]
pub enum GeneratorError {
    /// No holes provided.
    EmptyInput,
    /// A hole reference is invalid (empty ID, no cycle).
    InvalidHoleReference(String),
    /// Surface not supported for witness generation.
    UnsupportedSurface(String),
    /// Witness generation failed for a specific hole.
    GenerationFailed { hole_id: String, reason: String },
    /// Internal invariant violation.
    InternalError(String),
}

impl GeneratorError {
    /// Display rendering of the error.
    pub open spec fn text(self) -> Seq<char> {
        match self {
            GeneratorError::EmptyInput => "no holes provided"@,
            GeneratorError::InvalidHoleReference(id) => "invalid hole reference: "@ + id@,
            GeneratorError::UnsupportedSurface(s) => "unsupported surface: "@ + s@,
            GeneratorError::GenerationFailed { hole_id, reason } => "generation failed for "@ + hole_id@
                + ": "@ + reason@,
            GeneratorError::InternalError(msg) => "internal error: "@ + msg@,
        }
    }

    /// Display rendering of the error.
    pub fn to_string(&self) -> (r: String)
        ensures
            r@ == self.text(),
    {
        match self {
            GeneratorError::EmptyInput => owned("no holes provided"),
            GeneratorError::InvalidHoleReference(id) => {
                let mut r = owned("invalid hole reference: ");
                r.append(id.as_str());
                r
            },
            GeneratorError::UnsupportedSurface(s) => {
                let mut r = owned("unsupported surface: ");
                r.append(s.as_str());
                r
            },
            GeneratorError::GenerationFailed { hole_id, reason } => {
                let mut r = owned("generation failed for ");
                r.append(hole_id.as_str());
                r.append(": ");
                r.append(reason.as_str());
                r
            },
            GeneratorError::InternalError(msg) => {
                let mut r = owned("internal error: ");
                r.append(msg.as_str());
                r
            },
        }
    }
}

// ---------------------------------------------------------------------------
// Template registry
// ---------------------------------------------------------------------------

/// A file of a witness template: its path and its body pattern.
#[derive(Debug, Clone, PartialEq, Eq)]
pub struct FileTemplate {
    pub path_pattern: String,
    pub body_pattern: String,
}

/// A template mapping a (surface, kind) pair to the files of a witness.
#[derive(Debug, Clone, PartialEq, Eq)]
pub struct WitnessTemplate {
    pub surface: HoleSurface,
    pub kind: WitnessProgramKind,
    pub file_templates: Vec<FileTemplate>,
    pub base_confidence_millionths: u64,
}

/// A template as data: surface, kind, files (path and body pattern) and
/// base confidence.
pub type TemplateRow = (HoleSurface, WitnessProgramKind, Seq<(Seq<char>, Seq<char>)>, u64);

/// A template's data.
pub open spec fn template_view(t: WitnessTemplate) -> TemplateRow {
    (
        t.surface,
        t.kind,
        t.file_templates@.map_values(|f: FileTemplate| (f.path_pattern@, f.body_pattern@)),
        t.base_confidence_millionths,
    )
}

fn file_template(path: &str, body: &str) -> (r: FileTemplate)
    ensures
        r.path_pattern@ == path@,
        r.body_pattern@ == body@,
{
    FileTemplate { path_pattern: owned(path), body_pattern: owned(body) }
}

fn one_file_template(
    surface: HoleSurface,
    kind: WitnessProgramKind,
    path: &str,
    body: &str,
    base: u64,
) -> (r: WitnessTemplate)
    ensures
        template_view(r) == (surface, kind, seq![(path@, body@)], base),
{
    let r = WitnessTemplate {
        surface,
        kind,
        file_templates: vec![file_template(path, body)],
        base_confidence_millionths: base,
    };
    assert(template_view(r).2 =~= seq![(path@, body@)]);
    r
}

fn two_file_template(
    surface: HoleSurface,
    kind: WitnessProgramKind,
    path1: &str,
    body1: &str,
    path2: &str,
    body2: &str,
    base: u64,
) -> (r: WitnessTemplate)
    ensures
        template_view(r) == (surface, kind, seq![(path1@, body1@), (path2@, body2@)], base),
{
    let r = WitnessTemplate {
        surface,
        kind,
        file_templates: vec![file_template(path1, body1), file_template(path2, body2)],
        base_confidence_millionths: base,
    };
    assert(template_view(r).2 =~= seq![(path1@, body1@), (path2@, body2@)]);
    r
}

fn three_file_template(
    surface: HoleSurface,
    kind: WitnessProgramKind,
    path1: &str,
    body1: &str,
    path2: &str,
    body2: &str,
    path3: &str,
    body3: &str,
    base: u64,
) -> (r: WitnessTemplate)
    ensures
        template_view(r) == (surface, kind, seq![(path1@, body1@), (path2@, body2@), (path3@, body3@)], base),
{
    let r = WitnessTemplate {
        surface,
        kind,
        file_templates: vec![
            file_template(path1, body1),
            file_template(path2, body2),
            file_template(path3, body3),
        ],
        base_confidence_millionths: base,
    };
    assert(template_view(r).2 =~= seq![(path1@, body1@), (path2@, body2@), (path3@, body3@)]);
    r
}


/// Marker replaced by a witness's tag line.
pub const TAGS_MARKER: &'static str = "// HOLE_TAGS";

/// Marker replaced by a witness's placeholder value.
pub const PLACEHOLDER_MARKER: &'static str = "PLACEHOLDER";

/// Template body: Parser surface, JavaScript witness.
pub const PARSER_JS_BODY: &'static str = "// Hole-witness: parser surface\n// Exercises unsupported grammar region.\n// HOLE_TAGS\nconst x = PLACEHOLDER;\nconsole.log(x);\n";

/// Template body: Parser surface, TypeScript witness.
pub const PARSER_TS_BODY: &'static str = "// Hole-witness: parser surface (TypeScript)\n// Exercises unsupported grammar region.\n// HOLE_TAGS\nconst x: unknown = PLACEHOLDER;\nconsole.log(x);\n";

/// Template body: Runtime surface, JavaScript witness.
pub const RUNTIME_JS_BODY: &'static str = "// Hole-witness: runtime surface\n// Exercises unsupported runtime path.\n// HOLE_TAGS\nfunction exercise() {\n  return PLACEHOLDER;\n}\nexercise();\n";

/// Template body: Module surface: package manifest.
pub const MODULE_PACKAGE_JSON: &'static str = "{\n  \"name\": \"hole-witness-module\",\n  \"version\": \"0.0.1\",\n  \"type\": \"module\",\n  \"main\": \"index.js\"\n}\n";

/// Template body: Module surface: entry importing the gap.
pub const MODULE_INDEX_JS: &'static str = "// Hole-witness: module resolution\n// HOLE_TAGS\nimport { PLACEHOLDER } from './dep.js';\nconsole.log(PLACEHOLDER);\n";

/// Template body: Module surface: dependency exporting the gap.
pub const MODULE_DEP_JS: &'static str = "// Dependency exercising the module gap.\nexport const PLACEHOLDER = 42;\n";

/// Template body: React surface: package manifest.
pub const REACT_PACKAGE_JSON: &'static str = "{\n  \"name\": \"hole-witness-react\",\n  \"version\": \"0.0.1\",\n  \"dependencies\": { \"react\": \"^18.0.0\", \"react-dom\": \"^18.0.0\" }\n}\n";

/// Template body: React surface: application component.
pub const REACT_APP_TSX: &'static str = "// Hole-witness: React surface\n// HOLE_TAGS\nimport React from 'react';\n\nexport default function App() {\n  // Exercises unsupported React pattern.\n  return <div>PLACEHOLDER</div>;\n}\n";

/// Template body: Lowering surface, JavaScript witness.
pub const LOWERING_JS_BODY: &'static str = "// Hole-witness: lowering surface\n// Exercises unsupported IR lowering path.\n// HOLE_TAGS\nfunction lowered() {\n  let result = PLACEHOLDER;\n  return result;\n}\nlowered();\n";

/// Template body: RegExp surface, JavaScript witness.
pub const REGEXP_JS_BODY: &'static str = "// Hole-witness: regexp surface\n// Exercises unsupported regexp feature.\n// HOLE_TAGS\nconst re = /PLACEHOLDER/;\nconsole.log(re.test('test'));\n";

/// Template body: TypeScript surface witness.
pub const TYPESCRIPT_TS_BODY: &'static str = "// Hole-witness: typescript surface\n// Exercises unsupported TS type-narrowing.\n// HOLE_TAGS\ntype Witness = PLACEHOLDER;\nconst v: Witness = {} as Witness;\nconsole.log(v);\n";

/// Template body: Stdlib surface, JavaScript witness.
pub const STDLIB_JS_BODY: &'static str = "// Hole-witness: stdlib surface\n// Exercises unsupported built-in API.\n// HOLE_TAGS\nconst result = PLACEHOLDER;\nconsole.log(result);\n";

/// Template body: Async/generator witness on the runtime surface.
pub const ASYNC_GENERATOR_JS_BODY: &'static str = "// Hole-witness: async/generator surface\n// Exercises unsupported async iteration.\n// HOLE_TAGS\nasync function* gen() {\n  yield PLACEHOLDER;\n}\n(async () => {\n  for await (const v of gen()) console.log(v);\n})();\n";

/// Template body: Interop surface: package manifest.
pub const INTEROP_PACKAGE_JSON: &'static str = "{\n  \"name\": \"hole-witness-interop\",\n  \"version\": \"0.0.1\",\n  \"main\": \"index.cjs\",\n  \"module\": \"index.mjs\"\n}\n";

/// Template body: Interop surface: CommonJS entry.
pub const INTEROP_INDEX_CJS: &'static str = "// CJS entry\n// HOLE_TAGS\nmodule.exports = { PLACEHOLDER: true };\n";

/// Template body: Interop surface: ES module entry.
pub const INTEROP_INDEX_MJS: &'static str = "// ESM entry\n// HOLE_TAGS\nexport const PLACEHOLDER = true;\n";

/// The witness templates, in registry order: surface, kind, files (path
/// and body pattern) and base confidence.
pub open spec fn template_table() -> Seq<TemplateRow> {
    seq![
        (HoleSurface::Parser, WitnessProgramKind::JavaScript, seq![("witness.js"@, PARSER_JS_BODY@)], 800_000),
        (HoleSurface::Parser, WitnessProgramKind::TypeScript, seq![("witness.ts"@, PARSER_TS_BODY@)], 800_000),
        (HoleSurface::Runtime, WitnessProgramKind::JavaScript, seq![("witness_runtime.js"@, RUNTIME_JS_BODY@)], 750_000),
        (HoleSurface::Module, WitnessProgramKind::ModuleResolution, seq![("package.json"@, MODULE_PACKAGE_JSON@), ("index.js"@, MODULE_INDEX_JS@), ("dep.js"@, MODULE_DEP_JS@)], 850_000),
        (HoleSurface::React, WitnessProgramKind::ReactApp, seq![("package.json"@, REACT_PACKAGE_JSON@), ("src/App.tsx"@, REACT_APP_TSX@)], 750_000),
        (HoleSurface::Lowering, WitnessProgramKind::JavaScript, seq![("witness_lowering.js"@, LOWERING_JS_BODY@)], 780_000),
        (HoleSurface::RegExp, WitnessProgramKind::JavaScript, seq![("witness_regexp.js"@, REGEXP_JS_BODY@)], 820_000),
        (HoleSurface::TypeScript, WitnessProgramKind::TypeScript, seq![("witness_ts.ts"@, TYPESCRIPT_TS_BODY@)], 790_000),
        (HoleSurface::Stdlib, WitnessProgramKind::JavaScript, seq![("witness_stdlib.js"@, STDLIB_JS_BODY@)], 810_000),
        (HoleSurface::Runtime, WitnessProgramKind::AsyncGenerator, seq![("witness_async.js"@, ASYNC_GENERATOR_JS_BODY@)], 720_000),
        (HoleSurface::Interop, WitnessProgramKind::PackageManifest, seq![("package.json"@, INTEROP_PACKAGE_JSON@), ("index.cjs"@, INTEROP_INDEX_CJS@), ("index.mjs"@, INTEROP_INDEX_MJS@)], 760_000),
    ]
}

/// Build the registry of witness templates.
pub fn build_template_registry() -> (r: Vec<WitnessTemplate>)
    ensures
        r@.len() == template_table().len(),
        forall|i: int| 0 <= i < r@.len() ==> template_view(#[trigger] r@[i]) == template_table()[i],
{
    let r = vec![
        one_file_template(HoleSurface::Parser, WitnessProgramKind::JavaScript, "witness.js", PARSER_JS_BODY, 800_000),
        one_file_template(HoleSurface::Parser, WitnessProgramKind::TypeScript, "witness.ts", PARSER_TS_BODY, 800_000),
        one_file_template(HoleSurface::Runtime, WitnessProgramKind::JavaScript, "witness_runtime.js", RUNTIME_JS_BODY, 750_000),
        three_file_template(
            HoleSurface::Module,
            WitnessProgramKind::ModuleResolution,
            "package.json", MODULE_PACKAGE_JSON, "index.js", MODULE_INDEX_JS, "dep.js", MODULE_DEP_JS,
            850_000,
        ),
        two_file_template(
            HoleSurface::React,
            WitnessProgramKind::ReactApp,
            "package.json", REACT_PACKAGE_JSON, "src/App.tsx", REACT_APP_TSX,
            750_000,
        ),
        one_file_template(HoleSurface::Lowering, WitnessProgramKind::JavaScript, "witness_lowering.js", LOWERING_JS_BODY, 780_000),
        one_file_template(HoleSurface::RegExp, WitnessProgramKind::JavaScript, "witness_regexp.js", REGEXP_JS_BODY, 820_000),
        one_file_template(HoleSurface::TypeScript, WitnessProgramKind::TypeScript, "witness_ts.ts", TYPESCRIPT_TS_BODY, 790_000),
        one_file_template(HoleSurface::Stdlib, WitnessProgramKind::JavaScript, "witness_stdlib.js", STDLIB_JS_BODY, 810_000),
        one_file_template(HoleSurface::Runtime, WitnessProgramKind::AsyncGenerator, "witness_async.js", ASYNC_GENERATOR_JS_BODY, 720_000),
        three_file_template(
            HoleSurface::Interop,
            WitnessProgramKind::PackageManifest,
            "package.json", INTEROP_PACKAGE_JSON, "index.cjs", INTEROP_INDEX_CJS, "index.mjs", INTEROP_INDEX_MJS,
            760_000,
        ),
    ];
    r
}


// ---------------------------------------------------------------------------
// Witness instantiation
// ---------------------------------------------------------------------------

/// The rows for a surface whose kind is allowed, in order.
pub open spec fn matching_rows(rows: Seq<TemplateRow>, surface: HoleSurface, allowed: EnumSet<WitnessProgramKind>) -> Seq<TemplateRow>
    decreases rows.len(),
{
    if rows.len() == 0 {
        seq![]
    } else if rows.last().0 == surface && allowed.has(rows.last().1) {
        matching_rows(rows.drop_last(), surface, allowed).push(rows.last())
    } else {
        matching_rows(rows.drop_last(), surface, allowed)
    }
}

/// Find the templates for a surface whose kind is allowed, in registry order.
pub fn find_templates<'a>(
    registry: &'a [WitnessTemplate],
    surface: HoleSurface,
    allowed: &EnumSet<WitnessProgramKind>,
) -> (r: Vec<&'a WitnessTemplate>)
    ensures
        r@.map_values(|t: &WitnessTemplate| template_view(*t)) == matching_rows(
            registry@.map_values(|t: WitnessTemplate| template_view(t)),
            surface,
            *allowed,
        ),
{
    let ghost rows = registry@.map_values(|t: WitnessTemplate| template_view(t));
    let mut out: Vec<&WitnessTemplate> = Vec::new();
    let mut i: usize = 0;
    while i < registry.len()
        invariant
            i <= registry@.len(),
            rows == registry@.map_values(|t: WitnessTemplate| template_view(t)),
            out@.map_values(|t: &WitnessTemplate| template_view(*t)) == matching_rows(
                rows.take(i as int),
                surface,
                *allowed,
            ),
        decreases registry@.len() - i,
    {
        let t = &registry[i];
        if t.surface == surface && allowed.contains(&t.kind) {
            out.push(t);
        }
        proof {
            assert(rows.take(i + 1).drop_last() =~= rows.take(i as int));
            assert(rows.take(i + 1).last() == template_view(registry@[i as int]));
            assert(out@.map_values(|t: &WitnessTemplate| template_view(*t)) =~= matching_rows(
                rows.take(i + 1),
                surface,
                *allowed,
            ));
        }
        i = i + 1;
    }
    assert(rows.take(registry@.len() as int) =~= rows);
    out
}

/// `a - b`, or zero.
pub open spec fn sub_floor(a: u64, b: u64) -> u64 {
    if a >= b {
        (a - b) as u64
    } else {
        0
    }
}

/// The confidence of a witness: the template's base, less 50_000 for a hole
/// of dimension above one, less 100_000 for persistence below 100_000,
/// plus 50_000 (at most one million) for more than three affected
/// programs, less 200_000 for an empty cycle, never below zero.
pub open spec fn confidence_spec(base: u64, hole: HoleReference) -> u64 {
    let c1 = if hole.dimension > 1 {
        sub_floor(base, 50_000)
    } else {
        base
    };
    let c2 = if hole.persistence_millionths < 100_000 {
        sub_floor(c1, 100_000)
    } else {
        c1
    };
    let c3 = if hole.affected_programs@.len() > 3 {
        if c2 + 50_000 > MILLION {
            MILLION
        } else {
            (c2 + 50_000) as u64
        }
    } else {
        c2
    };
    if hole.representative_cycle@.len() == 0 {
        sub_floor(c3, 200_000)
    } else {
        c3
    }
}

/// Adjust a base confidence by the hole's properties.
pub fn adjust_confidence(base: u64, hole: &HoleReference) -> (r: u64)
    ensures
        r == confidence_spec(base, *hole),
{
    let mut c = base;
    if hole.dimension > 1 {
        c = c.saturating_sub(50_000);
    }
    if hole.persistence_millionths < 100_000 {
        c = c.saturating_sub(100_000);
    }
    if hole.affected_programs.len() > 3 {
        c = c.saturating_add(50_000);
        if c > MILLION {
            c = MILLION;
        }
    }
    if hole.representative_cycle.len() == 0 {
        c = c.saturating_sub(200_000);
    }
    c
}

/// Validate a hole reference: its identifier must not be empty.
pub fn validate_hole(hole: &HoleReference) -> (r: Result<(), GeneratorError>)
    ensures
        hole.hole_id@.len() == 0 <==> r is Err,
        hole.hole_id@.len() == 0 ==> (r matches Err(GeneratorError::InvalidHoleReference(m)) && m@
            == "empty hole_id"@),
{
    if hole.hole_id.as_str().is_empty() {
        return Err(GeneratorError::InvalidHoleReference(owned("empty hole_id")));
    }
    Ok(())
}

/// The identifier of the witness instantiated from a template of `kind` as
/// the `index`-th match for a hole.
pub open spec fn witness_id_spec(hole: HoleReference, kind: WitnessProgramKind, index: int) -> Seq<char> {
    "wt-"@ + hole.hole_id@ + "-"@ + kind.name() + "-"@ + decimal(index as nat)
}

/// The tag line that replaces the tags marker.
pub open spec fn tag_line_spec(hole: HoleReference) -> Seq<char> {
    "// Tags: hole="@ + hole.hole_id@ + " dim="@ + decimal(hole.dimension as nat) + " pers="@ + decimal(
        hole.persistence_millionths as nat,
    ) + " surf="@ + hole.surface.name()
}

/// The value that replaces the placeholder marker: the first affected
/// program, quoted, or `hole_` and the hole identifier, quoted.
pub open spec fn placeholder_spec(hole: HoleReference) -> Seq<char> {
    if hole.affected_programs@.len() == 0 {
        "\"hole_"@ + hole.hole_id@ + "\""@
    } else {
        "\""@ + hole.affected_programs@[0]@ + "\""@
    }
}

/// A template body with the markers substituted.
pub open spec fn instance_content(body: Seq<char>, hole: HoleReference) -> Seq<char> {
    replace_all(replace_all(body, TAGS_MARKER@, tag_line_spec(hole)), PLACEHOLDER_MARKER@, placeholder_spec(hole))
}

/// Total recorded lines of a template's files instantiated for a hole.
pub open spec fn instance_lines(files: Seq<(Seq<char>, Seq<char>)>, hole: HoleReference) -> nat
    decreases files.len(),
{
    if files.len() == 0 {
        0
    } else {
        instance_lines(files.drop_last(), hole) + recorded_lines(instance_content(files.last().1, hole))
    }
}

/// The description of a witness.
pub open spec fn description_spec(kind: WitnessProgramKind, hole: HoleReference) -> Seq<char> {
    "Minimal "@ + kind.name() + " witness for hole "@ + hole.hole_id@ + " on "@ + hole.surface.name()
        + " surface (dim="@ + decimal(hole.dimension as nat) + ", pers="@ + decimal(
        hole.persistence_millionths as nat,
    ) + ")"@
}

/// Whether `k` is one of the four tags of a witness: its hole, surface,
/// kind and dimension.
pub open spec fn is_witness_tag(k: Seq<char>, kind: WitnessProgramKind, hole: HoleReference) -> bool {
    ||| k == "hole:"@ + hole.hole_id@
    ||| k == "surface:"@ + hole.surface.name()
    ||| k == "kind:"@ + kind.name()
    ||| k == "dim:"@ + decimal(hole.dimension as nat)
}

/// A witness program instantiated from template `t` as its `index`-th match
/// for `hole`, and sealed.
pub open spec fn is_instance(w: WitnessProgram, t: TemplateRow, hole: HoleReference, index: int) -> bool {
    &&& w.witness_id@ == witness_id_spec(hole, t.1, index)
    &&& w.hole_id@ == hole.hole_id@
    &&& w.kind == t.1
    &&& w.surface == hole.surface
    &&& w.files@.len() == t.2.len()
    &&& forall|j: int|
        0 <= j < t.2.len() ==> {
            &&& (#[trigger] w.files@[j]).path@ == t.2[j].0
            &&& w.files@[j].content@ == instance_content(t.2[j].1, hole)
            &&& w.files@[j].line_count == recorded_lines(instance_content(t.2[j].1, hole))
        }
    &&& forall|k: Seq<char>| #[trigger] w.tags.has(k) <==> is_witness_tag(k, t.1, hole)
    &&& w.description@ == description_spec(t.1, hole)
    &&& w.confidence_millionths == confidence_spec(t.3, hole)
    &&& w.total_lines == instance_lines(t.2, hole)
    &&& w.is_sealed()
}

/// The files of a witness agree with the instantiated template files, so
/// their line counts add up to the instance's line total.
proof fn lemma_line_sum_instance(files: Seq<WitnessSourceFile>, t: Seq<(Seq<char>, Seq<char>)>, hole: HoleReference)
    requires
        files.len() == t.len(),
        forall|j: int|
            0 <= j < t.len() ==> (#[trigger] files[j]).line_count == recorded_lines(instance_content(t[j].1, hole)),
    ensures
        line_sum(files) == instance_lines(t, hole),
    decreases t.len(),
{
    if t.len() > 0 {
        lemma_line_sum_instance(files.drop_last(), t.drop_last(), hole);
    }
}

/// Instantiate a witness program from a template for a hole: identifier,
/// files with the markers substituted, tags, description and adjusted
/// confidence, sealed.  The files' line total must fit in a `usize`.
pub fn instantiate_witness(template: &WitnessTemplate, hole: &HoleReference, witness_index: usize) -> (r: WitnessProgram)
    requires
        instance_lines(template_view(*template).2, *hole) <= usize::MAX,
    ensures
        is_instance(r, template_view(*template), *hole, witness_index as int),
{
    let ghost t = template_view(*template);
    let kind = template.kind;
    let mut witness_id = owned("wt-");
    witness_id.append(hole.hole_id.as_str());
    witness_id.append("-");
    witness_id.append(kind.as_str());
    witness_id.append("-");
    witness_id.append(u64_to_decimal(witness_index as u64).as_str());
    let mut tag_line = owned("// Tags: hole=");
    tag_line.append(hole.hole_id.as_str());
    tag_line.append(" dim=");
    tag_line.append(u64_to_decimal(hole.dimension as u64).as_str());
    tag_line.append(" pers=");
    tag_line.append(u64_to_decimal(hole.persistence_millionths).as_str());
    tag_line.append(" surf=");
    tag_line.append(hole.surface.as_str());
    let placeholder = if hole.affected_programs.len() == 0 {
        let mut p = owned("\"hole_");
        p.append(hole.hole_id.as_str());
        p.append("\"");
        p
    } else {
        let mut p = owned("\"");
        p.append(hole.affected_programs[0].as_str());
        p.append("\"");
        p
    };
    proof {
        reveal_strlit("// HOLE_TAGS");
        reveal_strlit("PLACEHOLDER");
    }
    let mut files: Vec<WitnessSourceFile> = Vec::new();
    let mut i: usize = 0;
    while i < template.file_templates.len()
        invariant
            i <= template.file_templates@.len(),
            t == template_view(*template),
            TAGS_MARKER@.len() > 0,
            PLACEHOLDER_MARKER@.len() > 0,
            tag_line@ == tag_line_spec(*hole),
            placeholder@ == placeholder_spec(*hole),
            files@.len() == i,
            forall|j: int|
                0 <= j < i ==> {
                    &&& (#[trigger] files@[j]).path@ == t.2[j].0
                    &&& files@[j].content@ == instance_content(t.2[j].1, *hole)
                    &&& files@[j].line_count == recorded_lines(instance_content(t.2[j].1, *hole))
                },
        decreases template.file_templates@.len() - i,
    {
        let ft = &template.file_templates[i];
        let tagged = replace_str(ft.body_pattern.as_str(), TAGS_MARKER, tag_line.as_str());
        let content = replace_str(tagged.as_str(), PLACEHOLDER_MARKER, placeholder.as_str());
        let f = WitnessSourceFile::new(ft.path_pattern.as_str(), content.as_str());
        files.push(f);
        i = i + 1;
    }
    proof {
        lemma_line_sum_instance(files@, t.2, *hole);
    }
    let total_lines = sum_lines(&files);
    let mut tags = StrSet::new();
    let mut tag = owned("hole:");
    tag.append(hole.hole_id.as_str());
    tags.insert(tag);
    let mut tag = owned("surface:");
    tag.append(hole.surface.as_str());
    tags.insert(tag);
    let mut tag = owned("kind:");
    tag.append(kind.as_str());
    tags.insert(tag);
    let mut tag = owned("dim:");
    tag.append(u64_to_decimal(hole.dimension as u64).as_str());
    tags.insert(tag);
    let confidence = adjust_confidence(template.base_confidence_millionths, hole);
    let mut description = owned("Minimal ");
    description.append(kind.as_str());
    description.append(" witness for hole ");
    description.append(hole.hole_id.as_str());
    description.append(" on ");
    description.append(hole.surface.as_str());
    description.append(" surface (dim=");
    description.append(u64_to_decimal(hole.dimension as u64).as_str());
    description.append(", pers=");
    description.append(u64_to_decimal(hole.persistence_millionths).as_str());
    description.append(")");
    let mut prog = WitnessProgram {
        witness_id,
        hole_id: hole.hole_id.clone(),
        kind,
        surface: hole.surface,
        files,
        total_lines,
        tags,
        description,
        confidence_millionths: confidence,
        content_hash: ContentHash::compute("placeholder".as_bytes()),
    };
    prog.seal();
    prog
}


// ---------------------------------------------------------------------------
// Generation
// ---------------------------------------------------------------------------

/// Every template's files, instantiated for the hole, have a line total
/// that fits in a `usize`.
pub open spec fn hole_lines_fit(hole: HoleReference) -> bool {
    forall|i: int| 0 <= i < template_table().len() ==> instance_lines(#[trigger] template_table()[i].2, hole) <= usize::MAX
}

/// Positions among the first `n` matching templates whose witnesses are
/// kept: each one within the line limit, until the per-hole maximum is
/// reached.
pub open spec fn chosen(ms: Seq<TemplateRow>, hole: HoleReference, cfg: GeneratorConfig, n: int) -> Seq<int>
    decreases n,
{
    if n <= 0 {
        seq![]
    } else {
        let prev = chosen(ms, hole, cfg, n - 1);
        if prev.len() >= cfg.max_witnesses_per_hole {
            prev
        } else if instance_lines(ms[n - 1].2, hole) <= cfg.max_witness_lines {
            prev.push(n - 1)
        } else {
            prev
        }
    }
}

/// The templates matching a hole under a configuration.
pub open spec fn matches_for(hole: HoleReference, cfg: GeneratorConfig) -> Seq<TemplateRow> {
    matching_rows(template_table(), hole.surface, cfg.allowed_kinds)
}

/// A sealed batch for a hole: empty below the persistence threshold, else
/// the chosen instances of the matching templates, in order.
pub open spec fn batch_for(b: HoleWitnessBatch, hole: HoleReference, cfg: GeneratorConfig) -> bool {
    &&& b.hole_id@ == hole.hole_id@
    &&& b.surface == hole.surface
    &&& b.persistence_millionths == hole.persistence_millionths
    &&& if hole.persistence_millionths < cfg.min_persistence_millionths {
        b.witnesses@.len() == 0
    } else {
        let ms = matches_for(hole, cfg);
        let ch = chosen(ms, hole, cfg, ms.len() as int);
        &&& b.witnesses@.len() == ch.len()
        &&& forall|j: int|
            0 <= j < ch.len() ==> is_instance(#[trigger] b.witnesses@[j], ms[ch[j]], hole, ch[j])
    }
    &&& b.is_sealed(cfg.min_confidence_millionths)
}

proof fn lemma_matching_rows_from(rows: Seq<TemplateRow>, surface: HoleSurface, allowed: EnumSet<WitnessProgramKind>)
    ensures
        matching_rows(rows, surface, allowed).len() <= rows.len(),
        forall|j: int|
            0 <= j < matching_rows(rows, surface, allowed).len() ==> rows.contains(
                #[trigger] matching_rows(rows, surface, allowed)[j],
            ),
    decreases rows.len(),
{
    if rows.len() > 0 {
        lemma_matching_rows_from(rows.drop_last(), surface, allowed);
        let m = matching_rows(rows, surface, allowed);
        let p = matching_rows(rows.drop_last(), surface, allowed);
        assert forall|j: int| 0 <= j < m.len() implies rows.contains(#[trigger] m[j]) by {
            if j < p.len() {
                assert(m[j] == p[j]);
                let k = choose|k: int| 0 <= k < rows.drop_last().len() && rows.drop_last()[k] == p[j];
                assert(rows[k] == p[j]);
            } else {
                assert(rows[rows.len() - 1] == m[j]);
            }
        }
    }
}

proof fn lemma_chosen_bounds(ms: Seq<TemplateRow>, hole: HoleReference, cfg: GeneratorConfig, n: int)
    requires
        0 <= n,
    ensures
        chosen(ms, hole, cfg, n).len() <= n,
        forall|j: int| 0 <= j < chosen(ms, hole, cfg, n).len() ==> 0 <= #[trigger] chosen(ms, hole, cfg, n)[j] < n,
    decreases n,
{
    if n > 0 {
        lemma_chosen_bounds(ms, hole, cfg, n - 1);
    }
}

proof fn lemma_chosen_saturated(ms: Seq<TemplateRow>, hole: HoleReference, cfg: GeneratorConfig, i: int, n: int)
    requires
        0 <= i <= n,
        chosen(ms, hole, cfg, i).len() >= cfg.max_witnesses_per_hole,
    ensures
        chosen(ms, hole, cfg, n) == chosen(ms, hole, cfg, i),
    decreases n - i,
{
    if n > i {
        lemma_chosen_saturated(ms, hole, cfg, i, n - 1);
    }
}

/// Generate witness programs for a single hole.  A hole with an empty
/// identifier is refused; below the persistence threshold the batch is
/// empty; otherwise each matching template is instantiated in order and its
/// witness kept when within the line limit, until the per-hole maximum.
pub fn generate_for_hole(hole: &HoleReference, config: &GeneratorConfig) -> (r: Result<HoleWitnessBatch, GeneratorError>)
    requires
        hole_lines_fit(*hole),
    ensures
        hole.hole_id@.len() == 0 <==> r is Err,
        hole.hole_id@.len() == 0 ==> (r matches Err(GeneratorError::InvalidHoleReference(m)) && m@
            == "empty hole_id"@),
        r matches Ok(b) ==> batch_for(b, *hole, *config),
{
    validate_hole(hole)?;
    if hole.persistence_millionths < config.min_persistence_millionths {
        let mut batch = HoleWitnessBatch {
            hole_id: hole.hole_id.clone(),
            surface: hole.surface,
            persistence_millionths: hole.persistence_millionths,
            witnesses: Vec::new(),
            has_confident_witness: false,
            content_hash: ContentHash::compute("empty".as_bytes()),
        };
        batch.seal(config.min_confidence_millionths);
        return Ok(batch);
    }
    let registry = build_template_registry();
    let templates = find_templates(registry.as_slice(), hole.surface, &config.allowed_kinds);
    let ghost rows = registry@.map_values(|t: WitnessTemplate| template_view(t));
    assert(rows =~= template_table());
    let ghost ms = matches_for(*hole, *config);
    proof {
        lemma_matching_rows_from(template_table(), hole.surface, config.allowed_kinds);
    }
    let mut witnesses: Vec<WitnessProgram> = Vec::new();
    let mut i: usize = 0;
    while i < templates.len() && witnesses.len() < config.max_witnesses_per_hole
        invariant
            i <= templates@.len(),
            ms == matches_for(*hole, *config),
            templates@.map_values(|t: &WitnessTemplate| template_view(*t)) == ms,
            forall|j: int| 0 <= j < ms.len() ==> template_table().contains(#[trigger] ms[j]),
            hole_lines_fit(*hole),
            witnesses@.len() == chosen(ms, *hole, *config, i as int).len(),
            forall|j: int|
                0 <= j < witnesses@.len() ==> is_instance(
                    #[trigger] witnesses@[j],
                    ms[chosen(ms, *hole, *config, i as int)[j]],
                    *hole,
                    chosen(ms, *hole, *config, i as int)[j],
                ),
        decreases templates@.len() - i,
    {
        let t = templates[i];
        proof {
            assert(template_view(*t) == ms[i as int]);
            assert(template_table().contains(ms[i as int]));
            let k = choose|k: int| 0 <= k < template_table().len() && template_table()[k] == ms[i as int];
            assert(instance_lines(template_table()[k].2, *hole) <= usize::MAX);
        }
        let w = instantiate_witness(t, hole, i);
        let ghost prev = witnesses@;
        if w.is_minimal(config.max_witness_lines) {
            witnesses.push(w);
        }
        proof {
            let c = chosen(ms, *hole, *config, i + 1);
            assert forall|j: int| 0 <= j < witnesses@.len() implies is_instance(
                #[trigger] witnesses@[j],
                ms[c[j]],
                *hole,
                c[j],
            ) by {
                if j < prev.len() {
                    assert(witnesses@[j] == prev[j]);
                }
            }
        }
        i = i + 1;
    }
    proof {
        lemma_chosen_bounds(ms, *hole, *config, ms.len() as int);
        if i < templates@.len() {
            lemma_chosen_saturated(ms, *hole, *config, i as int, ms.len() as int);
        }
    }
    let mut batch = HoleWitnessBatch {
        hole_id: hole.hole_id.clone(),
        surface: hole.surface,
        persistence_millionths: hole.persistence_millionths,
        witnesses,
        has_confident_witness: false,
        content_hash: ContentHash::compute("placeholder".as_bytes()),
    };
    batch.seal(config.min_confidence_millionths);
    Ok(batch)
}


/// Some hole has an empty identifier.
pub open spec fn some_invalid(holes: Seq<HoleReference>) -> bool {
    exists|i: int| 0 <= i < holes.len() && (#[trigger] holes[i]).hole_id@.len() == 0
}

/// A sealed report over one batch per hole, in order, with the given
/// identifier and epoch.
pub open spec fn report_for(r: GenerationReport, holes: Seq<HoleReference>, cfg: GeneratorConfig, epoch: SecurityEpoch) -> bool {
    &&& r.batches@.len() == holes.len()
    &&& forall|i: int| 0 <= i < holes.len() ==> batch_for(#[trigger] r.batches@[i], holes[i], cfg)
    &&& r.report_id@ == "genrpt-"@ + decimal(holes.len())
    &&& r.epoch == epoch
    &&& r.is_sealed()
}

proof fn lemma_batch_size(b: HoleWitnessBatch, hole: HoleReference, cfg: GeneratorConfig)
    requires
        batch_for(b, hole, cfg),
    ensures
        b.witnesses@.len() <= 11,
{
    let ms = matches_for(hole, cfg);
    lemma_matching_rows_from(template_table(), hole.surface, cfg.allowed_kinds);
    lemma_chosen_bounds(ms, hole, cfg, ms.len() as int);
}

proof fn lemma_witness_total_bound(bs: Seq<HoleWitnessBatch>)
    requires
        forall|i: int| 0 <= i < bs.len() ==> (#[trigger] bs[i]).witnesses@.len() <= 11,
    ensures
        witness_total(bs) <= 11 * bs.len(),
    decreases bs.len(),
{
    if bs.len() > 0 {
        lemma_witness_total_bound(bs.drop_last());
    }
}

/// Generate witness programs for all holes: refused for no holes or for a
/// hole with an empty identifier, else one batch per hole in a report
/// identified by the number of holes, at epoch one, sealed.
pub fn generate_witnesses(holes: &[HoleReference], config: &GeneratorConfig) -> (r: Result<GenerationReport, GeneratorError>)
    requires
        forall|i: int| 0 <= i < holes@.len() ==> hole_lines_fit(#[trigger] holes@[i]),
        11 * holes@.len() <= u64::MAX,
    ensures
        r is Err <==> holes@.len() == 0 || some_invalid(holes@),
        holes@.len() == 0 ==> r == Err::<GenerationReport, GeneratorError>(GeneratorError::EmptyInput),
        holes@.len() > 0 && some_invalid(holes@) ==> (r matches Err(GeneratorError::InvalidHoleReference(m)) && m@
            == "empty hole_id"@),
        r matches Ok(rep) ==> report_for(rep, holes@, *config, SecurityEpoch(1)),
{
    if holes.len() == 0 {
        return Err(GeneratorError::EmptyInput);
    }
    let mut batches: Vec<HoleWitnessBatch> = Vec::new();
    let mut i: usize = 0;
    while i < holes.len()
        invariant
            i <= holes@.len(),
            forall|j: int| 0 <= j < holes@.len() ==> hole_lines_fit(#[trigger] holes@[j]),
            batches@.len() == i,
            forall|j: int| 0 <= j < i ==> batch_for(#[trigger] batches@[j], holes@[j], *config),
            forall|j: int| 0 <= j < i ==> (#[trigger] holes@[j]).hole_id@.len() > 0,
        decreases holes@.len() - i,
    {
        let batch = generate_for_hole(&holes[i], config)?;
        batches.push(batch);
        i = i + 1;
    }
    proof {
        assert forall|j: int| 0 <= j < batches@.len() implies (#[trigger] batches@[j]).witnesses@.len() <= 11 by {
            lemma_batch_size(batches@[j], holes@[j], *config);
        }
        lemma_witness_total_bound(batches@);
    }
    let mut report_id = owned("genrpt-");
    report_id.append(u64_to_decimal(batches.len() as u64).as_str());
    let mut report = GenerationReport {
        report_id,
        epoch: SecurityEpoch::from_raw(1),
        outcome: GenerationOutcome::Empty,
        batches,
        holes_processed: 0,
        holes_covered: 0,
        holes_uncovered: 0,
        total_witnesses: 0,
        coverage_millionths: 0,
        content_hash: ContentHash::compute("placeholder".as_bytes()),
    };
    report.seal();
    Ok(report)
}

/// Generate witnesses with a specific epoch: as `generate_witnesses`, with
/// the report re-stamped and resealed at that epoch.
pub fn generate_witnesses_at_epoch(
    holes: &[HoleReference],
    config: &GeneratorConfig,
    epoch: SecurityEpoch,
) -> (r: Result<GenerationReport, GeneratorError>)
    requires
        forall|i: int| 0 <= i < holes@.len() ==> hole_lines_fit(#[trigger] holes@[i]),
        11 * holes@.len() <= u64::MAX,
    ensures
        r is Err <==> holes@.len() == 0 || some_invalid(holes@),
        holes@.len() == 0 ==> r == Err::<GenerationReport, GeneratorError>(GeneratorError::EmptyInput),
        holes@.len() > 0 && some_invalid(holes@) ==> (r matches Err(GeneratorError::InvalidHoleReference(m)) && m@
            == "empty hole_id"@),
        r matches Ok(rep) ==> report_for(rep, holes@, *config, epoch),
{
    let mut report = generate_witnesses(holes, config)?;
    proof {
        assert forall|j: int| 0 <= j < report.batches@.len() implies (#[trigger] report.batches@[j]).witnesses@.len() <= 11 by {
            lemma_batch_size(report.batches@[j], holes@[j], *config);
        }
        lemma_witness_total_bound(report.batches@);
    }
    report.epoch = epoch;
    report.seal();
    Ok(report)
}

// ---------------------------------------------------------------------------
// Analysis helpers
// ---------------------------------------------------------------------------

/// The identifiers of all witnesses, batch by batch.
pub open spec fn all_witness_ids(bs: Seq<HoleWitnessBatch>) -> Seq<Seq<char>>
    decreases bs.len(),
{
    if bs.len() == 0 {
        seq![]
    } else {
        all_witness_ids(bs.drop_last()) + bs.last().witnesses@.map_values(|w: WitnessProgram| w.witness_id@)
    }
}

/// Collect all witness IDs from a report, batch by batch.
pub fn collect_witness_ids(report: &GenerationReport) -> (r: Vec<String>)
    ensures
        r@.map_values(|x: String| x@) == all_witness_ids(report.batches@),
{
    let bs = &report.batches;
    let mut out: Vec<String> = Vec::new();
    let mut i: usize = 0;
    while i < bs.len()
        invariant
            i <= bs@.len(),
            out@.map_values(|x: String| x@) == all_witness_ids(bs@.take(i as int)),
            out@.len() == all_witness_ids(bs@.take(i as int)).len(),
        decreases bs@.len() - i,
    {
        let ws = &bs[i].witnesses;
        let ghost base = out@.map_values(|x: String| x@);
        let mut k: usize = 0;
        while k < ws.len()
            invariant
                k <= ws@.len(),
                out@.len() == base.len() + k,
                out@.map_values(|x: String| x@) == base + ws@.take(k as int).map_values(|w: WitnessProgram| w.witness_id@),
            decreases ws@.len() - k,
        {
            let c = ws[k].witness_id.clone();
            let ghost prev = out@;
            out.push(c);
            let ghost want = base + ws@.take(k + 1).map_values(|w: WitnessProgram| w.witness_id@);
            assert forall|t: int| 0 <= t < out@.len() implies out@.map_values(|x: String| x@)[t] == want[t] by {
                if t < prev.len() {
                    assert(out@[t] == prev[t]);
                    assert(prev.map_values(|x: String| x@)[t] == (base + ws@.take(k as int).map_values(
                        |w: WitnessProgram| w.witness_id@,
                    ))[t]);
                }
            }
            assert(out@.map_values(|x: String| x@) =~= want);
            k = k + 1;
        }
        assert(ws@.take(ws@.len() as int) =~= ws@);
        assert(bs@.take(i + 1).drop_last() =~= bs@.take(i as int));
        i = i + 1;
    }
    assert(bs@.take(bs@.len() as int) =~= bs@);
    out
}

/// Some batch of the surface has a confident witness.
pub open spec fn surface_covered(bs: Seq<HoleWitnessBatch>, s: HoleSurface) -> bool {
    exists|i: int| 0 <= i < bs.len() && (#[trigger] bs[i]).has_confident_witness && bs[i].surface == s
}

/// Collect the surfaces that have at least one confident witness.
pub fn covered_surfaces(report: &GenerationReport) -> (r: EnumSet<HoleSurface>)
    ensures
        forall|s: HoleSurface| #[trigger] r.has(s) <==> surface_covered(report.batches@, s),
{
    let bs = &report.batches;
    let mut set: EnumSet<HoleSurface> = EnumSet::new();
    let mut i: usize = 0;
    while i < bs.len()
        invariant
            i <= bs@.len(),
            forall|s: HoleSurface| #[trigger] set.has(s) <==> surface_covered(bs@.take(i as int), s),
        decreases bs@.len() - i,
    {
        if bs[i].has_confident_witness {
            set.insert(bs[i].surface);
        }
        proof {
            assert forall|s: HoleSurface| #[trigger] set.has(s) <==> surface_covered(bs@.take(i + 1), s) by {
                if surface_covered(bs@.take(i + 1), s) {
                    let j = choose|j: int| 0 <= j < i + 1 && (#[trigger] bs@.take(i + 1)[j]).has_confident_witness
                        && bs@.take(i + 1)[j].surface == s;
                    if j < i {
                        assert(bs@.take(i as int)[j] == bs@.take(i + 1)[j]);
                    }
                }
                if surface_covered(bs@.take(i as int), s) {
                    let j = choose|j: int| 0 <= j < i && (#[trigger] bs@.take(i as int)[j]).has_confident_witness
                        && bs@.take(i as int)[j].surface == s;
                    assert(bs@.take(i + 1)[j] == bs@.take(i as int)[j]);
                }
                if bs@[i as int].has_confident_witness && bs@[i as int].surface == s {
                    assert(bs@.take(i + 1)[i as int] == bs@[i as int]);
                }
            }
        }
        i = i + 1;
    }
    assert(bs@.take(bs@.len() as int) =~= bs@);
    set
}

/// Number of batches of a surface.
pub open spec fn surface_total_count(bs: Seq<HoleWitnessBatch>, s: HoleSurface) -> nat
    decreases bs.len(),
{
    if bs.len() == 0 {
        0
    } else {
        surface_total_count(bs.drop_last(), s) + if bs.last().surface == s {
            1nat
        } else {
            0nat
        }
    }
}

/// Number of batches of a surface with a confident witness.
pub open spec fn surface_covered_count(bs: Seq<HoleWitnessBatch>, s: HoleSurface) -> nat
    decreases bs.len(),
{
    if bs.len() == 0 {
        0
    } else {
        surface_covered_count(bs.drop_last(), s) + if bs.last().surface == s && bs.last().has_confident_witness {
            1nat
        } else {
            0nat
        }
    }
}

proof fn lemma_surface_counts(bs: Seq<HoleWitnessBatch>, s: HoleSurface)
    ensures
        surface_covered_count(bs, s) <= surface_total_count(bs, s) <= bs.len(),
    decreases bs.len(),
{
    if bs.len() > 0 {
        lemma_surface_counts(bs.drop_last(), s);
    }
}

/// Compute the per-surface coverage: for each surface with batches, the
/// covered share of its batches in millionths.
pub fn surface_coverage(report: &GenerationReport) -> (r: EnumMap<HoleSurface, u64>)
    ensures
        forall|s: HoleSurface|
            #[trigger] r.lookup(s) == if surface_total_count(report.batches@, s) > 0 {
                Some(
                    coverage_for(
                        surface_total_count(report.batches@, s) as u64,
                        surface_covered_count(report.batches@, s) as u64,
                    ),
                )
            } else {
                None
            },
{
    let bs = &report.batches;
    let mut totals: EnumMap<HoleSurface, (u64, u64)> = EnumMap::new();
    let mut i: usize = 0;
    while i < bs.len()
        invariant
            i <= bs@.len(),
            forall|s: HoleSurface|
                #[trigger] totals.lookup(s) == if surface_total_count(bs@.take(i as int), s) > 0 {
                    Some(
                        (
                            surface_total_count(bs@.take(i as int), s) as u64,
                            surface_covered_count(bs@.take(i as int), s) as u64,
                        ),
                    )
                } else {
                    None
                },
            forall|s: HoleSurface| #[trigger] surface_total_count(bs@.take(i as int), s) <= i,
        decreases bs@.len() - i,
    {
        let surf = bs[i].surface;
        let entry = match totals.get(&surf) {
            Some(e) => e,
            None => (0u64, 0u64),
        };
        proof {
            lemma_surface_counts(bs@.take(i as int), surf);
            assert(bs@.take(i + 1).drop_last() =~= bs@.take(i as int));
        }
        let covered = if bs[i].has_confident_witness {
            entry.1 + 1
        } else {
            entry.1
        };
        totals.insert(surf, (entry.0 + 1, covered));
        proof {
            assert forall|s: HoleSurface| #[trigger] surface_total_count(bs@.take(i + 1), s) <= i + 1 by {
                lemma_surface_counts(bs@.take(i + 1), s);
            }
        }
        i = i + 1;
    }
    assert(bs@.take(bs@.len() as int) =~= bs@);
    let mut out: EnumMap<HoleSurface, u64> = EnumMap::new();
    let mut k: usize = 0;
    while k < 9
        invariant
            k <= 9,
            forall|s: HoleSurface|
                #[trigger] totals.lookup(s) == if surface_total_count(bs@, s) > 0 {
                    Some((surface_total_count(bs@, s) as u64, surface_covered_count(bs@, s) as u64))
                } else {
                    None
                },
            forall|s: HoleSurface|
                #[trigger] out.lookup(s) == if s.rank() < k && surface_total_count(bs@, s) > 0 {
                    Some(
                        coverage_for(
                            surface_total_count(bs@, s) as u64,
                            surface_covered_count(bs@, s) as u64,
                        ),
                    )
                } else {
                    None
                },
        decreases 9 - k,
    {
        let s = HoleSurface::ALL[k];
        assert(s.rank() == k);
        if let Some((total, covered)) = totals.get(&s) {
            let cov = if total == 0 {
                0
            } else {
                sat_mul(covered, MILLION) / total
            };
            out.insert(s, cov);
        }
        k = k + 1;
    }
    out
}

/// Return the batches whose witnesses are all below the confidence
/// threshold, among those with witnesses.
pub fn uncovered_holes(report: &GenerationReport) -> (r: Vec<&HoleWitnessBatch>)
    ensures
        r@.map_values(|b: &HoleWitnessBatch| *b) == report.batches@.filter(
            |b: HoleWitnessBatch| !b.has_confident_witness && b.witnesses@.len() > 0,
        ),
{
    let bs = &report.batches;
    let mut out: Vec<&HoleWitnessBatch> = Vec::new();
    let mut i: usize = 0;
    while i < bs.len()
        invariant
            i <= bs@.len(),
            out@.map_values(|b: &HoleWitnessBatch| *b) == bs@.take(i as int).filter(
                |b: HoleWitnessBatch| !b.has_confident_witness && b.witnesses@.len() > 0,
            ),
        decreases bs@.len() - i,
    {
        if !bs[i].has_confident_witness && bs[i].witnesses.len() > 0 {
            out.push(&bs[i]);
        }
        proof {
            let p = |b: HoleWitnessBatch| !b.has_confident_witness && b.witnesses@.len() > 0;
            assert(bs@.take(i + 1).drop_last() =~= bs@.take(i as int));
            reveal(Seq::filter);
            assert(out@.map_values(|b: &HoleWitnessBatch| *b) =~= bs@.take(i + 1).filter(p));
        }
        i = i + 1;
    }
    assert(bs@.take(bs@.len() as int) =~= bs@);
    out
}

/// Return the batches without any witness.
pub fn empty_batches(report: &GenerationReport) -> (r: Vec<&HoleWitnessBatch>)
    ensures
        r@.map_values(|b: &HoleWitnessBatch| *b) == report.batches@.filter(
            |b: HoleWitnessBatch| b.witnesses@.len() == 0,
        ),
{
    let bs = &report.batches;
    let mut out: Vec<&HoleWitnessBatch> = Vec::new();
    let mut i: usize = 0;
    while i < bs.len()
        invariant
            i <= bs@.len(),
            out@.map_values(|b: &HoleWitnessBatch| *b) == bs@.take(i as int).filter(
                |b: HoleWitnessBatch| b.witnesses@.len() == 0,
            ),
        decreases bs@.len() - i,
    {
        if bs[i].witnesses.len() == 0 {
            out.push(&bs[i]);
        }
        proof {
            let p = |b: HoleWitnessBatch| b.witnesses@.len() == 0;
            assert(bs@.take(i + 1).drop_last() =~= bs@.take(i as int));
            reveal(Seq::filter);
            assert(out@.map_values(|b: &HoleWitnessBatch| *b) =~= bs@.take(i + 1).filter(p));
        }
        i = i + 1;
    }
    assert(bs@.take(bs@.len() as int) =~= bs@);
    out
}

/// The confidences of all witnesses, batch by batch.
pub open spec fn all_confidences(bs: Seq<HoleWitnessBatch>) -> Seq<u64>
    decreases bs.len(),
{
    if bs.len() == 0 {
        seq![]
    } else {
        all_confidences(bs.drop_last()) + bs.last().witnesses@.map_values(|w: WitnessProgram| w.confidence_millionths)
    }
}

/// The largest value, or zero for none.
pub open spec fn max_of(s: Seq<u64>) -> u64
    decreases s.len(),
{
    if s.len() == 0 {
        0
    } else if max_of(s.drop_last()) >= s.last() {
        max_of(s.drop_last())
    } else {
        s.last()
    }
}

/// The smallest value, or zero for none.
pub open spec fn min_of(s: Seq<u64>) -> u64
    decreases s.len(),
{
    if s.len() == 0 {
        0
    } else if s.len() == 1 {
        s[0]
    } else if min_of(s.drop_last()) <= s.last() {
        min_of(s.drop_last())
    } else {
        s.last()
    }
}

/// The confidences of all witnesses of a report.
fn confidences(report: &GenerationReport) -> (r: Vec<u64>)
    ensures
        r@ == all_confidences(report.batches@),
{
    let bs = &report.batches;
    let mut out: Vec<u64> = Vec::new();
    let mut i: usize = 0;
    while i < bs.len()
        invariant
            i <= bs@.len(),
            out@ == all_confidences(bs@.take(i as int)),
        decreases bs@.len() - i,
    {
        let ws = &bs[i].witnesses;
        let ghost base = out@;
        let mut k: usize = 0;
        while k < ws.len()
            invariant
                k <= ws@.len(),
                out@ == base + ws@.take(k as int).map_values(|w: WitnessProgram| w.confidence_millionths),
            decreases ws@.len() - k,
        {
            out.push(ws[k].confidence_millionths);
            assert(out@ =~= base + ws@.take(k + 1).map_values(|w: WitnessProgram| w.confidence_millionths));
            k = k + 1;
        }
        assert(ws@.take(ws@.len() as int) =~= ws@);
        assert(bs@.take(i + 1).drop_last() =~= bs@.take(i as int));
        i = i + 1;
    }
    assert(bs@.take(bs@.len() as int) =~= bs@);
    out
}

/// Return the maximum confidence across all witnesses, zero for none.
pub fn max_confidence(report: &GenerationReport) -> (r: u64)
    ensures
        r == max_of(all_confidences(report.batches@)),
{
    let cs = confidences(report);
    let mut m: u64 = 0;
    let mut i: usize = 0;
    while i < cs.len()
        invariant
            i <= cs@.len(),
            m == max_of(cs@.take(i as int)),
        decreases cs@.len() - i,
    {
        assert(cs@.take(i + 1).drop_last() =~= cs@.take(i as int));
        if cs[i] > m {
            m = cs[i];
        }
        i = i + 1;
    }
    assert(cs@.take(cs@.len() as int) =~= cs@);
    m
}

/// Return the minimum confidence across all witnesses, zero for none.
pub fn min_confidence(report: &GenerationReport) -> (r: u64)
    ensures
        r == min_of(all_confidences(report.batches@)),
{
    let cs = confidences(report);
    if cs.len() == 0 {
        return 0;
    }
    let mut m: u64 = cs[0];
    let mut i: usize = 1;
    assert(cs@.take(1) =~= seq![cs@[0]]);
    while i < cs.len()
        invariant
            1 <= i <= cs@.len(),
            m == min_of(cs@.take(i as int)),
        decreases cs@.len() - i,
    {
        assert(cs@.take(i + 1).drop_last() =~= cs@.take(i as int));
        if cs[i] < m {
            m = cs[i];
        }
        i = i + 1;
    }
    assert(cs@.take(cs@.len() as int) =~= cs@);
    m
}

/// Summary of a generation report.
#[derive(Debug, Clone, PartialEq, Eq)]
pub struct ReportSummary {
    pub report_id: String,
    pub epoch: SecurityEpoch,
    pub outcome: GenerationOutcome,
    pub holes_processed: u64,
    pub holes_covered: u64,
    pub holes_uncovered: u64,
    pub total_witnesses: u64,
    pub coverage_millionths: u64,
    pub surfaces_covered: u64,
    pub max_confidence_millionths: u64,
    pub min_confidence_millionths: u64,
    pub content_hash: ContentHash,
}

/// Bytes hashed into a report summary's content hash.
pub open spec fn summary_hash_input(report: GenerationReport) -> Seq<u8> {
    utf8("report_summary:"@) + utf8(report.report_id@) + utf8("|cov:"@) + u64_le(report.coverage_millionths)
}

/// Build a summary from a generation report: its recorded counters, the
/// number of covered surfaces, the confidence extremes and a hash of its
/// identity and coverage.
pub fn report_summary(report: &GenerationReport) -> (r: ReportSummary)
    ensures
        r.report_id@ == report.report_id@,
        r.epoch == report.epoch,
        r.outcome == report.outcome,
        r.holes_processed == report.holes_processed,
        r.holes_covered == report.holes_covered,
        r.holes_uncovered == report.holes_uncovered,
        r.total_witnesses == report.total_witnesses,
        r.coverage_millionths == report.coverage_millionths,
        r.surfaces_covered == count_where(|s: HoleSurface| surface_covered(report.batches@, s), 9),
        r.max_confidence_millionths == max_of(all_confidences(report.batches@)),
        r.min_confidence_millionths == min_of(all_confidences(report.batches@)),
        r.content_hash@ == sealed_hash(summary_hash_input(*report)),
{
    let surfaces = covered_surfaces(report);
    proof {
        surfaces.lemma_len_count();
        crate::collections::lemma_count_where_ext(
            |s: HoleSurface| surfaces.has(s),
            |s: HoleSurface| surface_covered(report.batches@, s),
            9,
        );
    }
    let mut buf: Vec<u8> = Vec::new();
    push_str(&mut buf, "report_summary:");
    push_str(&mut buf, report.report_id.as_str());
    push_str(&mut buf, "|cov:");
    push_u64_le(&mut buf, report.coverage_millionths);
    proof {
        reveal_strlit("report_summary:");
        reveal_strlit("|cov:");
    }
    assert(buf@ =~= summary_hash_input(*report));
    ReportSummary {
        report_id: report.report_id.clone(),
        epoch: report.epoch,
        outcome: report.outcome,
        holes_processed: report.holes_processed,
        holes_covered: report.holes_covered,
        holes_uncovered: report.holes_uncovered,
        total_witnesses: report.total_witnesses,
        coverage_millionths: report.coverage_millionths,
        surfaces_covered: surfaces.len() as u64,
        max_confidence_millionths: max_confidence(report),
        min_confidence_millionths: min_confidence(report),
        content_hash: seal_bytes(&buf),
    }
}


// ---------------------------------------------------------------------------
// Laws
// ---------------------------------------------------------------------------

/// Every witness a batch holds belongs to the batch's hole and surface,
/// stays within the line limit, and there are at most the per-hole maximum
/// of them; a hole below the persistence threshold gets none, so it is
/// never covered.
pub proof fn law_batch_respects_config(b: HoleWitnessBatch, hole: HoleReference, cfg: GeneratorConfig)
    requires
        batch_for(b, hole, cfg),
    ensures
        b.witnesses@.len() <= cfg.max_witnesses_per_hole || b.witnesses@.len() == 0,
        forall|j: int|
            0 <= j < b.witnesses@.len() ==> {
                &&& (#[trigger] b.witnesses@[j]).hole_id@ == hole.hole_id@
                &&& b.witnesses@[j].surface == hole.surface
                &&& b.witnesses@[j].total_lines <= cfg.max_witness_lines
            },
        hole.persistence_millionths < cfg.min_persistence_millionths ==> !b.has_confident_witness,
{
    if hole.persistence_millionths >= cfg.min_persistence_millionths {
        let ms = matches_for(hole, cfg);
        lemma_chosen_shape(ms, hole, cfg, ms.len() as int);
        assert forall|j: int| 0 <= j < b.witnesses@.len() implies {
            &&& (#[trigger] b.witnesses@[j]).hole_id@ == hole.hole_id@
            &&& b.witnesses@[j].surface == hole.surface
            &&& b.witnesses@[j].total_lines <= cfg.max_witness_lines
        } by {
            let ch = chosen(ms, hole, cfg, ms.len() as int);
            assert(is_instance(b.witnesses@[j], ms[ch[j]], hole, ch[j]));
        }
    } else {
        assert(!any_confident(b.witnesses@, cfg.min_confidence_millionths));
    }
}

/// The chosen positions are at most the per-hole maximum, and each one's
/// instance is within the line limit.
proof fn lemma_chosen_shape(ms: Seq<TemplateRow>, hole: HoleReference, cfg: GeneratorConfig, n: int)
    ensures
        chosen(ms, hole, cfg, n).len() <= cfg.max_witnesses_per_hole || chosen(ms, hole, cfg, n).len() == 0,
        forall|j: int|
            0 <= j < chosen(ms, hole, cfg, n).len() ==> instance_lines(
                ms[#[trigger] chosen(ms, hole, cfg, n)[j]].2,
                hole,
            ) <= cfg.max_witness_lines,
    decreases n,
{
    if n > 0 {
        lemma_chosen_shape(ms, hole, cfg, n - 1);
    }
}

/// In a sealed report, covered and uncovered holes add up to the processed
/// ones, the outcome is Complete exactly when every processed hole is
/// covered, Empty exactly when some hole is uncovered and no witness was
/// generated at all, and, while a million times the processed count fits in a u64,
/// coverage is one million exactly then.
pub proof fn law_report_accounting(r: GenerationReport)
    requires
        r.is_sealed(),
    ensures
        r.holes_covered + r.holes_uncovered == r.holes_processed,
        r.holes_covered <= r.holes_processed,
        (r.outcome == GenerationOutcome::Complete) <==> (r.holes_processed > 0 && r.holes_covered
            == r.holes_processed),
        (r.outcome == GenerationOutcome::Empty) <==> (r.holes_processed > 0 && r.holes_covered
            < r.holes_processed && r.total_witnesses == 0),
        0 < r.holes_processed && r.holes_processed * MILLION <= u64::MAX ==> ((r.coverage_millionths
            == MILLION) <==> (r.holes_covered == r.holes_processed)),
{
    lemma_covered_count_bound(r.batches@);
    let p = r.holes_processed as int;
    let c = r.holes_covered as int;
    if 0 < p && p * 1_000_000 <= u64::MAX {
        assert(c * 1_000_000 <= p * 1_000_000) by (nonlinear_arith)
            requires
                0 <= c <= p,
        ;
        if c == p {
            assert(c * 1_000_000 / p == 1_000_000) by (nonlinear_arith)
                requires
                    c == p,
                    p > 0,
            ;
        } else {
            assert(c * 1_000_000 / p < 1_000_000) by (nonlinear_arith)
                requires
                    0 <= c < p,
            ;
        }
    }
}

/// The description of a witness does not enter its content hash: two
/// programs that differ only in their descriptions hash the same bytes.
pub proof fn law_description_not_hashed(a: WitnessProgram, b: WitnessProgram)
    requires
        a.witness_id@ == b.witness_id@,
        a.hole_id@ == b.hole_id@,
        a.kind == b.kind,
        a.surface == b.surface,
        a.files@ == b.files@,
        a.tags == b.tags,
        a.confidence_millionths == b.confidence_millionths,
    ensures
        a.hash_input() == b.hash_input(),
{
}

} // verus!
