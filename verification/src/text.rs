//! Character-level text utilities: UTF-8 byte lengths, Unicode white space,
//! searching, joining, substring replacement and line counting, each with a
//! specification over character sequences.

use vstd::prelude::*;
use vstd::utf8::encode_utf8;

verus! {

broadcast use vstd::string::group_string_axioms;

// ---------------------------------------------------------------------------
// Characters and byte lengths
// ---------------------------------------------------------------------------

/// Calls `String::push`, which appends one character to the string.
#[verifier::external_body]
pub(crate) fn push_char(s: &mut String, c: char)
    ensures
        final(s)@ == old(s)@.push(c),
{
    s.push(c);
}

/// What std's `Debug` formatting renders for a string slice: the text in
/// double quotes, with quotes, backslashes and non-printable characters
/// escaped.
pub uninterp spec fn str_debug(s: Seq<char>) -> Seq<char>;

/// Calls std's `Debug` formatting of a string slice (`{:?}`).  Trusted:
/// the rendering depends on the text alone; std's escaping rules (which
/// rest on Unicode tables) are not written out here.
#[verifier::external_body]
pub(crate) fn debug_quoted(s: &str) -> (r: String)
    ensures
        r@ == str_debug(s@),
{
    format!("{:?}", s)
}

/// The characters of a string, in order.
pub fn chars_of(s: &str) -> (r: Vec<char>)
    ensures
        r@ == s@,
{
    let mut out: Vec<char> = Vec::new();
    for c in it: s.chars()
        invariant
            out@ == it.seq().take(it.index() as int),
            it.seq() == s@,
    {
        out.push(c);
    }
    out
}


/// The characters `c[from..to]` as a string.
pub fn string_from_chars(c: &Vec<char>, from: usize, to: usize) -> (r: String)
    requires
        from <= to <= c@.len(),
    ensures
        r@ == c@.subrange(from as int, to as int),
{
    let mut out = String::new();
    let mut i = from;
    while i < to
        invariant
            from <= i <= to <= c@.len(),
            out@ == c@.subrange(from as int, i as int),
        decreases to - i,
    {
        push_char(&mut out, c[i]);
        i = i + 1;
        assert(out@ =~= c@.subrange(from as int, i as int));
    }
    out
}

/// Number of bytes of the UTF-8 encoding of a character sequence.
pub open spec fn utf8_len(s: Seq<char>) -> nat {
    encode_utf8(s).len()
}

/// Encoding a concatenation concatenates the encodings.
pub proof fn lemma_encode_concat(a: Seq<char>, b: Seq<char>)
    ensures
        encode_utf8(a + b) == encode_utf8(a) + encode_utf8(b),
    decreases a.len(),
{
    if a.len() == 0 {
        assert(a + b =~= b);
        assert(encode_utf8(a) =~= Seq::<u8>::empty());
        assert(encode_utf8(a) + encode_utf8(b) =~= encode_utf8(b));
    } else {
        lemma_encode_concat(a.drop_first(), b);
        assert((a + b).drop_first() =~= a.drop_first() + b);
        assert((a + b)[0] == a[0]);
        let h = vstd::utf8::encode_scalar(a[0] as u32);
        assert(encode_utf8(a + b) == h + encode_utf8(a.drop_first() + b));
        assert(encode_utf8(a) == h + encode_utf8(a.drop_first()));
        assert(h + (encode_utf8(a.drop_first()) + encode_utf8(b)) =~= (h + encode_utf8(
            a.drop_first(),
        )) + encode_utf8(b));
    }
}

/// Byte lengths add up over a concatenation.
pub proof fn lemma_utf8_len_concat(a: Seq<char>, b: Seq<char>)
    ensures
        utf8_len(a + b) == utf8_len(a) + utf8_len(b),
{
    lemma_encode_concat(a, b);
}

/// A newline is one byte long.
pub proof fn lemma_utf8_len_newline()
    ensures
        utf8_len(seq!['\n']) == 1,
        utf8_len(seq!['\n', '\n']) == 2,
{
    reveal_with_fuel(encode_utf8, 3);
    assert(seq!['\n'].drop_first() =~= Seq::<char>::empty());
    assert(seq!['\n', '\n'].drop_first() =~= seq!['\n']);
}

/// A prefix is no longer in bytes than the whole.
pub proof fn lemma_utf8_len_prefix(s: Seq<char>, i: int)
    requires
        0 <= i <= s.len(),
    ensures
        utf8_len(s.subrange(0, i)) <= utf8_len(s),
{
    assert(s =~= s.subrange(0, i) + s.subrange(i, s.len() as int));
    lemma_utf8_len_concat(s.subrange(0, i), s.subrange(i, s.len() as int));
}

/// The byte length of a character sequence as `str::len` reports it.
pub open spec fn byte_count(s: Seq<char>) -> usize {
    utf8_len(s) as usize
}

/// The byte length of a string.
pub fn byte_len(s: &str) -> (r: usize)
    ensures
        r == byte_count(s@),
{
    s.len()
}

// ---------------------------------------------------------------------------
// White space
// ---------------------------------------------------------------------------

/// The characters with the Unicode `White_Space` property, the set that
/// `char::is_whitespace` and `str::trim` use.
pub open spec fn is_white_space(c: char) -> bool {
    ||| ('\u{9}' <= c && c <= '\u{d}')
    ||| c == ' '
    ||| c == '\u{85}'
    ||| c == '\u{a0}'
    ||| c == '\u{1680}'
    ||| ('\u{2000}' <= c && c <= '\u{200a}')
    ||| c == '\u{2028}'
    ||| c == '\u{2029}'
    ||| c == '\u{202f}'
    ||| c == '\u{205f}'
    ||| c == '\u{3000}'
}

/// Whether a character is white space.
pub fn white_space(c: char) -> (r: bool)
    ensures
        r == is_white_space(c),
{
    ('\u{9}' <= c && c <= '\u{d}') || c == ' ' || c == '\u{85}' || c == '\u{a0}' || c
        == '\u{1680}' || ('\u{2000}' <= c && c <= '\u{200a}') || c == '\u{2028}' || c
        == '\u{2029}' || c == '\u{202f}' || c == '\u{205f}' || c == '\u{3000}'
}

/// A sequence that trims to nothing: every character is white space.
pub open spec fn is_blank(s: Seq<char>) -> bool {
    forall|i: int| 0 <= i < s.len() ==> is_white_space(#[trigger] s[i])
}

/// Whether a string trims to the empty string.
pub fn blank(s: &str) -> (r: bool)
    ensures
        r == is_blank(s@),
{
    let c = chars_of(s);
    let mut i: usize = 0;
    while i < c.len()
        invariant
            i <= c@.len(),
            c@ == s@,
            forall|j: int| 0 <= j < i ==> is_white_space(#[trigger] s@[j]),
        decreases c@.len() - i,
    {
        if !white_space(c[i]) {
            return false;
        }
        i = i + 1;
    }
    true
}

// ---------------------------------------------------------------------------
// Searching, joining, replacing
// ---------------------------------------------------------------------------

/// Whether `pat` occurs in `s` at position `j`.
pub open spec fn matches_at(s: Seq<char>, pat: Seq<char>, j: int) -> bool {
    0 <= j && j + pat.len() <= s.len() && s.subrange(j, j + pat.len()) == pat
}

/// The first position at or after `j` where `pat` occurs, or `s.len()`.
pub open spec fn find_from(s: Seq<char>, pat: Seq<char>, j: int) -> int
    decreases s.len() - j,
{
    if j < 0 || j >= s.len() || j + pat.len() > s.len() {
        s.len() as int
    } else if matches_at(s, pat, j) {
        j
    } else {
        find_from(s, pat, j + 1)
    }
}

/// The search result lies in range and, when found, is a match.
pub proof fn lemma_find_from(s: Seq<char>, pat: Seq<char>, j: int)
    requires
        0 <= j <= s.len(),
        pat.len() > 0,
    ensures
        j <= find_from(s, pat, j) <= s.len(),
        find_from(s, pat, j) < s.len() ==> matches_at(s, pat, find_from(s, pat, j)),
        forall|k: int| j <= k < find_from(s, pat, j) ==> !matches_at(s, pat, k),
    decreases s.len() - j,
{
    if j >= s.len() || j + pat.len() > s.len() {
        assert forall|k: int| j <= k < s.len() implies !matches_at(s, pat, k) by {}
    } else if !matches_at(s, pat, j) {
        lemma_find_from(s, pat, j + 1);
    }
}

/// `s[start..]` with every occurrence of `pat` replaced by `rep`, matches
/// taken left to right without overlap, as `str::replace` does.
pub open spec fn replace_from(s: Seq<char>, pat: Seq<char>, rep: Seq<char>, start: int) -> Seq<char>
    decreases s.len() - start,
{
    if start < 0 || start > s.len() || pat.len() == 0 {
        Seq::empty()
    } else {
        let k = find_from(s, pat, start);
        if k >= s.len() {
            s.subrange(start, s.len() as int)
        } else {
            proof {
                lemma_find_from(s, pat, start);
            }
            s.subrange(start, k) + rep + replace_from(s, pat, rep, k + pat.len())
        }
    }
}

/// `s` with every occurrence of `pat` replaced by `rep`.
pub open spec fn replace_all(s: Seq<char>, pat: Seq<char>, rep: Seq<char>) -> Seq<char> {
    replace_from(s, pat, rep, 0)
}

/// The parts joined with `sep` between consecutive parts.
pub open spec fn join_with(parts: Seq<Seq<char>>, sep: Seq<char>) -> Seq<char>
    decreases parts.len(),
{
    if parts.len() == 0 {
        Seq::empty()
    } else if parts.len() == 1 {
        parts[0]
    } else {
        join_with(parts.drop_last(), sep) + sep + parts.last()
    }
}

/// The first position at or after `j` where `pat` occurs in `s`, or `s.len()`.
pub fn find_chars(s: &Vec<char>, pat: &Vec<char>, j: usize) -> (r: usize)
    requires
        j <= s@.len(),
        pat@.len() > 0,
    ensures
        r == find_from(s@, pat@, j as int),
{
    let mut k = j;
    while k < s.len() && pat.len() <= s.len() - k
        invariant
            j <= k <= s@.len(),
            pat@.len() > 0,
            find_from(s@, pat@, j as int) == find_from(s@, pat@, k as int),
        decreases s@.len() - k,
    {
        let mut m: usize = 0;
        let mut same = true;
        while m < pat.len()
            invariant
                m <= pat@.len(),
                k + pat@.len() <= s@.len() <= usize::MAX,
                same == (forall|t: int| 0 <= t < m ==> s@[k + t] == pat@[t]),
            decreases pat@.len() - m,
        {
            if s[k + m] != pat[m] {
                same = false;
            }
            m = m + 1;
        }
        if same {
            assert(s@.subrange(k as int, k + pat@.len()) =~= pat@);
            return k;
        }
        assert(!matches_at(s@, pat@, k as int)) by {
            if matches_at(s@, pat@, k as int) {
                assert forall|t: int| 0 <= t < pat@.len() implies s@[k + t] == pat@[t] by {
                    assert(s@.subrange(k as int, k + pat@.len())[t] == s@[k + t]);
                }
            }
        }
        k = k + 1;
    }
    s.len()
}

/// Replace every occurrence of a non-empty pattern.
pub fn replace_str(s: &str, pat: &str, rep: &str) -> (r: String)
    requires
        pat@.len() > 0,
    ensures
        r@ == replace_all(s@, pat@, rep@),
{
    let c = chars_of(s);
    let p = chars_of(pat);
    let mut out = String::new();
    let mut start: usize = 0;
    loop
        invariant
            start <= c@.len(),
            c@ == s@,
            p@ == pat@,
            p@.len() > 0,
            replace_all(s@, pat@, rep@) == out@ + replace_from(s@, pat@, rep@, start as int),
        decreases c@.len() - start,
    {
        let k = find_chars(&c, &p, start);
        proof {
            lemma_find_from(s@, pat@, start as int);
        }
        let piece = string_from_chars(&c, start, k);
        let ghost before = out@;
        out.append(piece.as_str());
        if k >= c.len() {
            assert(out@ =~= before + s@.subrange(start as int, s@.len() as int));
            assert(replace_all(s@, pat@, rep@) =~= out@);
            return out;
        }
        out.append(rep);
        assert(out@ =~= before + s@.subrange(start as int, k as int) + rep@);
        assert(replace_all(s@, pat@, rep@) =~= out@ + replace_from(s@, pat@, rep@, k + pat@.len()));
        start = k + p.len();
    }
}

// ---------------------------------------------------------------------------
// Lines
// ---------------------------------------------------------------------------

/// Number of newline characters.
pub open spec fn newline_count(s: Seq<char>) -> nat
    decreases s.len(),
{
    if s.len() == 0 {
        0
    } else {
        newline_count(s.drop_last()) + if s.last() == '\n' {
            1nat
        } else {
            0nat
        }
    }
}

/// Number of lines as `str::lines` yields them: each newline ends a line,
/// and a last line without a newline counts too; the empty text has none.
pub open spec fn line_total(s: Seq<char>) -> nat {
    if s.len() == 0 {
        0
    } else if s.last() == '\n' {
        newline_count(s)
    } else {
        newline_count(s) + 1
    }
}

proof fn lemma_newline_count_bound(s: Seq<char>)
    ensures
        newline_count(s) <= s.len(),
        s.len() > 0 && s.last() != '\n' ==> newline_count(s) < s.len(),
    decreases s.len(),
{
    if s.len() > 0 {
        lemma_newline_count_bound(s.drop_last());
    }
}

/// Count the lines of a string.
pub fn count_lines(s: &str) -> (r: usize)
    ensures
        r == line_total(s@),
{
    let c = chars_of(s);
    let mut n: usize = 0;
    let mut i: usize = 0;
    while i < c.len()
        invariant
            i <= c@.len(),
            c@ == s@,
            n == newline_count(s@.take(i as int)),
            n <= i,
        decreases c@.len() - i,
    {
        proof {
            assert(s@.take(i + 1).drop_last() =~= s@.take(i as int));
        }
        if c[i] == '\n' {
            n = n + 1;
        }
        i = i + 1;
    }
    assert(s@.take(c@.len() as int) =~= s@);
    if c.len() == 0 {
        0
    } else if c[c.len() - 1] == '\n' {
        n
    } else {
        proof {
            lemma_newline_count_bound(s@);
        }
        n + 1
    }
}


/// The bytes of `s` between the byte lengths of two prefixes are the bytes
/// of the characters between them.
pub proof fn lemma_utf8_window(s: Seq<char>, a: int, b: int)
    requires
        0 <= a <= b <= s.len(),
    ensures
        utf8_len(s.subrange(0, a)) <= utf8_len(s.subrange(0, b)) <= utf8_len(s),
        encode_utf8(s).subrange(utf8_len(s.subrange(0, a)) as int, utf8_len(s.subrange(0, b)) as int)
            == encode_utf8(s.subrange(a, b)),
{
    let p = s.subrange(0, a);
    let m = s.subrange(a, b);
    let q = s.subrange(b, s.len() as int);
    assert(s =~= (p + m) + q);
    assert(s.subrange(0, b) =~= p + m);
    lemma_encode_concat(p + m, q);
    lemma_encode_concat(p, m);
    assert(encode_utf8(s) == encode_utf8(p) + encode_utf8(m) + encode_utf8(q));
    assert(encode_utf8(s).subrange(encode_utf8(p).len() as int, (encode_utf8(p).len() + encode_utf8(m).len()) as int)
        =~= encode_utf8(m));
}

} // verus!
