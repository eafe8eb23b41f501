//! Shared building blocks: content hashes, security epochs, canonical byte
//! encodings and decimal rendering used by every gate in this crate.

use sha2::Digest;
use vstd::prelude::*;

verus! {

// ---------------------------------------------------------------------------
// SHA-256
// ---------------------------------------------------------------------------

/// The SHA-256 digest of a byte sequence (FIPS 180-4), as computed by the
/// `sha2` crate.
pub uninterp spec fn sha256_digest(data: Seq<u8>) -> Seq<u8>;

/// Calls `sha2::Sha256::digest` and returns the 32-byte digest.
/// Trusted: the result is the SHA-256 digest of exactly the given bytes.
#[verifier::external_body]
fn sha256(data: &[u8]) -> (r: [u8; 32])
    ensures
        r@ == sha256_digest(data@),
{
    sha2::Sha256::digest(data).into()
}

/// Lowercase hexadecimal rendering of one nibble.
pub open spec fn hex_nibble(n: u8) -> char {
    if n < 10 {
        (('0' as u8) + n) as char
    } else {
        (('a' as u8) + (n - 10)) as char
    }
}

/// Lowercase hexadecimal rendering of a byte sequence, two characters per byte,
/// high nibble first.
pub open spec fn hex_lower(data: Seq<u8>) -> Seq<char>
    decreases data.len(),
{
    if data.len() == 0 {
        Seq::empty()
    } else {
        seq![hex_nibble(data[0] / 16), hex_nibble(data[0] % 16)] + hex_lower(data.drop_first())
    }
}

/// Calls `hex::encode`, which renders bytes as lowercase hexadecimal, two
/// characters per byte, high nibble first.
#[verifier::external_body]
fn hex_encode(data: &[u8]) -> (r: String)
    ensures
        r@ == hex_lower(data@),
{
    hex::encode(data)
}

/// The one-character string of a nibble's hexadecimal digit.
fn nibble_str(n: u8) -> (r: &'static str)
    requires
        n < 16,
    ensures
        r@ == seq![hex_nibble(n)],
{
    proof {
        reveal_strlit("0");
        reveal_strlit("1");
        reveal_strlit("2");
        reveal_strlit("3");
        reveal_strlit("4");
        reveal_strlit("5");
        reveal_strlit("6");
        reveal_strlit("7");
        reveal_strlit("8");
        reveal_strlit("9");
        reveal_strlit("a");
        reveal_strlit("b");
        reveal_strlit("c");
        reveal_strlit("d");
        reveal_strlit("e");
        reveal_strlit("f");
    }
    match n {
        0 => "0",
        1 => "1",
        2 => "2",
        3 => "3",
        4 => "4",
        5 => "5",
        6 => "6",
        7 => "7",
        8 => "8",
        9 => "9",
        10 => "a",
        11 => "b",
        12 => "c",
        13 => "d",
        14 => "e",
        _ => "f",
    }
}

/// Appending a byte appends its two hexadecimal digits.
proof fn lemma_hex_lower_push(s: Seq<u8>, b: u8)
    ensures
        hex_lower(s.push(b)) == hex_lower(s) + seq![hex_nibble(b / 16), hex_nibble(b % 16)],
    decreases s.len(),
{
    if s.len() == 0 {
        let t = s.push(b);
        assert(t.drop_first() =~= Seq::<u8>::empty());
        assert(t[0] == b);
        assert(hex_lower(t.drop_first()) =~= Seq::<char>::empty());
        assert(hex_lower(s) =~= Seq::<char>::empty());
        assert(hex_lower(t) =~= hex_lower(s) + seq![hex_nibble(b / 16), hex_nibble(b % 16)]);
    } else {
        let t = s.push(b);
        assert(t.drop_first() =~= s.drop_first().push(b));
        assert(t[0] == s[0]);
        lemma_hex_lower_push(s.drop_first(), b);
        let head = seq![hex_nibble(s[0] / 16), hex_nibble(s[0] % 16)];
        let tail = seq![hex_nibble(b / 16), hex_nibble(b % 16)];
        assert(hex_lower(t) == head + hex_lower(t.drop_first()));
        assert(hex_lower(s) == head + hex_lower(s.drop_first()));
        assert(head + (hex_lower(s.drop_first()) + tail) =~= (head + hex_lower(s.drop_first())) + tail);
    }
}

/// Lowercase hexadecimal rendering of bytes, two characters per byte.
pub fn hex_of_bytes(data: &[u8]) -> (r: String)
    ensures
        r@ == hex_lower(data@),
{
    let mut out = String::new();
    let mut i: usize = 0;
    while i < data.len()
        invariant
            i <= data@.len(),
            out@ == hex_lower(data@.take(i as int)),
        decreases data@.len() - i,
    {
        let b = data[i];
        out.append(nibble_str(b / 16));
        out.append(nibble_str(b % 16));
        proof {
            assert(data@.take(i + 1) =~= data@.take(i as int).push(b));
            lemma_hex_lower_push(data@.take(i as int), b);
        }
        i = i + 1;
    }
    assert(data@.take(data@.len() as int) =~= data@);
    out
}

/// Lowercase hex of the SHA-256 digest of a string's UTF-8 bytes.
pub open spec fn text_digest_hex(s: Seq<char>) -> Seq<char> {
    hex_lower(sha256_digest(utf8(s)))
}

/// Lowercase hex of the SHA-256 digest of a string's UTF-8 bytes.
pub fn sha256_text_hex(s: &str) -> (r: String)
    ensures
        r@ == text_digest_hex(s@),
{
    let d = ContentHash::compute(s.as_bytes());
    hex_of_bytes(d.as_bytes())
}

/// Lowercase hex of the SHA-256 digest of some bytes.
pub fn sha256_bytes_hex(data: &[u8]) -> (r: String)
    ensures
        r@ == hex_lower(sha256_digest(data@)),
{
    let d = ContentHash::compute(data);
    hex_of_bytes(d.as_bytes())
}

/// Lowercase hex of the first `n` bytes of a SHA-256 digest of `data`, used
/// for short content-addressed identifiers.
pub fn sha256_hex_prefix(data: &[u8], n: usize) -> (r: String)
    requires
        n <= 32,
    ensures
        r@ == hex_lower(sha256_digest(data@).take(n as int)),
{
    let d = sha256(data);
    let mut prefix: Vec<u8> = Vec::new();
    let mut i: usize = 0;
    while i < n
        invariant
            i <= n <= 32,
            d@.len() == 32,
            prefix@ == d@.take(i as int),
        decreases n - i,
    {
        prefix.push(d[i]);
        i = i + 1;
        assert(prefix@ =~= d@.take(i as int));
    }
    hex_encode(prefix.as_slice())
}

// ---------------------------------------------------------------------------
// ContentHash
// ---------------------------------------------------------------------------

/// A 32-byte content hash: the SHA-256 digest of some canonical bytes.
#[derive(Debug, Clone, Copy, PartialEq, Eq, Hash, PartialOrd, Ord)]
pub struct ContentHash(pub [u8; 32]);

impl View for ContentHash {
    type V = Seq<u8>;

    open spec fn view(&self) -> Seq<u8> {
        self.0@
    }
}

impl ContentHash {
    /// Hash the given bytes.
    pub fn compute(data: &[u8]) -> (r: ContentHash)
        ensures
            r@ == sha256_digest(data@),
    {
        ContentHash(sha256(data))
    }

    /// The raw digest bytes.
    pub fn as_bytes(&self) -> (r: &[u8])
        ensures
            r@ == self@,
            r@.len() == 32,
    {
        self.0.as_slice()
    }

    /// Lowercase hexadecimal rendering of the digest.
    pub fn to_hex(&self) -> (r: String)
        ensures
            r@ == hex_lower(self@),
    {
        hex_encode(self.0.as_slice())
    }
}

/// A 32-byte keyed authenticity tag (a MAC) over some content.
#[derive(Debug, Clone, Copy, PartialEq, Eq, Hash, PartialOrd, Ord)]
pub struct AuthenticityHash(pub [u8; 32]);

// ---------------------------------------------------------------------------
// SecurityEpoch
// ---------------------------------------------------------------------------

/// Monotonic security epoch in which an artifact was produced.
#[derive(Debug, Clone, Copy, PartialEq, Eq, Hash, PartialOrd, Ord)]
pub struct SecurityEpoch(pub u64);

impl SecurityEpoch {
    /// Epoch with the given raw number.
    pub fn from_raw(value: u64) -> (r: SecurityEpoch)
        ensures
            r.0 == value,
    {
        SecurityEpoch(value)
    }

    /// The raw epoch number.
    pub fn as_u64(&self) -> (r: u64)
        ensures
            r == self.0,
    {
        self.0
    }

    /// Rendering `epoch:<n>`.
    pub fn to_string(&self) -> (r: String)
        ensures
            r@ == "epoch:"@ + decimal(self.0 as nat),
    {
        let s = String::from_str("epoch:");
        s.concat(u64_to_decimal(self.0).as_str())
    }
}

// ---------------------------------------------------------------------------
// Canonical byte encodings
// ---------------------------------------------------------------------------

/// The `n` low-order bytes of `v`, least significant first.
pub open spec fn le_bytes(v: nat, n: nat) -> Seq<u8>
    decreases n,
{
    if n == 0 {
        Seq::empty()
    } else {
        seq![(v % 256) as u8] + le_bytes(v / 256, (n - 1) as nat)
    }
}

/// The `n` low-order bytes of `v`, most significant first.
pub open spec fn be_bytes(v: nat, n: nat) -> Seq<u8>
    decreases n,
{
    if n == 0 {
        Seq::empty()
    } else {
        be_bytes(v / 256, (n - 1) as nat).push((v % 256) as u8)
    }
}

/// UTF-8 bytes of a character sequence.
pub open spec fn utf8(s: Seq<char>) -> Seq<u8> {
    vstd::utf8::encode_utf8(s)
}

/// Eight little-endian bytes of a `u64`.
pub open spec fn u64_le(v: u64) -> Seq<u8> {
    le_bytes(v as nat, 8)
}

/// Four little-endian bytes of a `u32`.
pub open spec fn u32_le(v: u32) -> Seq<u8> {
    le_bytes(v as nat, 4)
}

/// Eight big-endian bytes of a `u64`.
pub open spec fn u64_be(v: u64) -> Seq<u8> {
    be_bytes(v as nat, 8)
}

/// A string framed by its big-endian byte length.
pub open spec fn framed_str(s: Seq<char>) -> Seq<u8> {
    u64_be(utf8(s).len() as u64) + utf8(s)
}

/// Append bytes to a buffer.
pub fn push_bytes(buf: &mut Vec<u8>, data: &[u8])
    ensures
        final(buf)@ == old(buf)@ + data@,
{
    let mut i: usize = 0;
    while i < data.len()
        invariant
            i <= data@.len(),
            buf@ == old(buf)@ + data@.take(i as int),
        decreases data@.len() - i,
    {
        buf.push(data[i]);
        i = i + 1;
        assert(buf@ =~= old(buf)@ + data@.take(i as int));
    }
    assert(data@.take(data@.len() as int) =~= data@);
}

/// Append the UTF-8 bytes of a string.
pub fn push_str(buf: &mut Vec<u8>, s: &str)
    ensures
        final(buf)@ == old(buf)@ + utf8(s@),
{
    push_bytes(buf, s.as_bytes());
}

/// Append the `n` low-order bytes of `v`, least significant first.
pub fn push_le(buf: &mut Vec<u8>, v: u64, n: u8)
    ensures
        final(buf)@ == old(buf)@ + le_bytes(v as nat, n as nat),
    decreases n,
{
    if n > 0 {
        let ghost before = buf@;
        buf.push((v % 256) as u8);
        push_le(buf, v / 256, n - 1);
        assert(buf@ =~= before + le_bytes(v as nat, n as nat));
    }
}

/// Append the `n` low-order bytes of `v`, most significant first.
pub fn push_be(buf: &mut Vec<u8>, v: u64, n: u8)
    ensures
        final(buf)@ == old(buf)@ + be_bytes(v as nat, n as nat),
    decreases n,
{
    if n > 0 {
        let ghost before = buf@;
        push_be(buf, v / 256, n - 1);
        buf.push((v % 256) as u8);
        assert(buf@ =~= before + be_bytes(v as nat, n as nat));
    }
}

/// Append eight little-endian bytes of `v`.
pub fn push_u64_le(buf: &mut Vec<u8>, v: u64)
    ensures
        final(buf)@ == old(buf)@ + u64_le(v),
{
    push_le(buf, v, 8);
}

/// Append four little-endian bytes of `v`.
pub fn push_u32_le(buf: &mut Vec<u8>, v: u32)
    ensures
        final(buf)@ == old(buf)@ + u32_le(v),
{
    push_le(buf, v as u64, 4);
}

/// Append eight big-endian bytes of `v`.
pub fn push_u64_be(buf: &mut Vec<u8>, v: u64)
    ensures
        final(buf)@ == old(buf)@ + u64_be(v),
{
    push_be(buf, v, 8);
}

/// Append a string framed by its big-endian byte length.
pub fn push_framed_str(buf: &mut Vec<u8>, s: &str)
    ensures
        final(buf)@ == old(buf)@ + framed_str(s@),
{
    let bytes = s.as_bytes();
    let ghost before = buf@;
    push_u64_be(buf, bytes.len() as u64);
    push_bytes(buf, bytes);
    assert(buf@ =~= before + framed_str(s@));
}

// ---------------------------------------------------------------------------
// Decimal rendering
// ---------------------------------------------------------------------------

/// The decimal digit character for `d < 10`.
pub open spec fn digit(d: nat) -> Seq<char> {
    if d == 0 {
        "0"@
    } else if d == 1 {
        "1"@
    } else if d == 2 {
        "2"@
    } else if d == 3 {
        "3"@
    } else if d == 4 {
        "4"@
    } else if d == 5 {
        "5"@
    } else if d == 6 {
        "6"@
    } else if d == 7 {
        "7"@
    } else if d == 8 {
        "8"@
    } else {
        "9"@
    }
}

/// Decimal rendering of a natural number, without leading zeros.
pub open spec fn decimal(n: nat) -> Seq<char>
    decreases n,
{
    if n < 10 {
        digit(n)
    } else {
        decimal(n / 10) + digit(n % 10)
    }
}

fn digit_str(d: u64) -> (r: &'static str)
    requires
        d < 10,
    ensures
        r@ == digit(d as nat),
{
    if d == 0 {
        "0"
    } else if d == 1 {
        "1"
    } else if d == 2 {
        "2"
    } else if d == 3 {
        "3"
    } else if d == 4 {
        "4"
    } else if d == 5 {
        "5"
    } else if d == 6 {
        "6"
    } else if d == 7 {
        "7"
    } else if d == 8 {
        "8"
    } else {
        "9"
    }
}

/// Decimal rendering of a `u64`.
pub fn u64_to_decimal(n: u64) -> (r: String)
    ensures
        r@ == decimal(n as nat),
    decreases n,
{
    if n < 10 {
        String::from_str(digit_str(n))
    } else {
        let s = u64_to_decimal(n / 10);
        s.concat(digit_str(n % 10))
    }
}

/// Rendering of a boolean as `true` / `false`.
pub open spec fn bool_text(b: bool) -> Seq<char> {
    if b {
        "true"@
    } else {
        "false"@
    }
}

/// Rendering of a boolean as `true` / `false`.
pub fn bool_to_str(b: bool) -> (r: &'static str)
    ensures
        r@ == bool_text(b),
{
    if b {
        "true"
    } else {
        "false"
    }
}

/// Owned copy of a string slice.
pub fn owned(s: &str) -> (r: String)
    ensures
        r@ == s@,
{
    String::from_str(s)
}

// ---------------------------------------------------------------------------
// Fixed-point arithmetic
// ---------------------------------------------------------------------------

/// `a * b`, clamped at `u64::MAX`.
pub open spec fn sat_mul_spec(a: u64, b: u64) -> u64 {
    if a * b > u64::MAX {
        u64::MAX
    } else {
        (a * b) as u64
    }
}

/// `a * b`, clamped at `u64::MAX`.
pub fn sat_mul(a: u64, b: u64) -> (r: u64)
    ensures
        r == sat_mul_spec(a, b),
{
    match a.checked_mul(b) {
        Some(p) => p,
        None => u64::MAX,
    }
}

/// `num * 1_000_000 / den` with the product clamped at `u64::MAX`; zero when
/// `den` is zero.
pub open spec fn ratio_millionths(num: u64, den: u64) -> u64 {
    if den == 0 {
        0
    } else {
        (sat_mul_spec(num, 1_000_000) / den) as u64
    }
}

/// `num * 1_000_000 / den` with the product clamped at `u64::MAX`; zero when
/// `den` is zero.
pub fn ratio(num: u64, den: u64) -> (r: u64)
    ensures
        r == ratio_millionths(num, den),
{
    if den == 0 {
        0
    } else {
        sat_mul(num, 1_000_000) / den
    }
}

/// Absolute difference.
pub open spec fn abs_diff(a: u64, b: u64) -> u64 {
    if a >= b {
        (a - b) as u64
    } else {
        (b - a) as u64
    }
}

} // verus!
