//! The high-score store's text format: the score as ASCII decimal digits.
//! Reading tolerates surrounding ASCII whitespace and an optional leading
//! plus sign, and falls back to zero on anything unparsable — an absent,
//! empty or corrupt store simply starts the session at zero.

use vstd::prelude::*;

verus! {

/// ASCII whitespace: space, tab, line feed, vertical tab, form feed,
/// carriage return.
pub open spec fn is_ascii_space(b: u8) -> bool {
    b == 32 || (9 <= b <= 13)
}

/// An ASCII decimal digit.
pub open spec fn is_digit(b: u8) -> bool {
    48 <= b <= 57
}

/// Every byte is a digit.
pub open spec fn all_digits(s: Seq<u8>) -> bool {
    forall|i: int| 0 <= i < s.len() ==> is_digit(#[trigger] s[i])
}

/// The number the digit string denotes, most significant digit first.
pub open spec fn digits_value(s: Seq<u8>) -> int
    decreases s.len(),
{
    if s.len() == 0 {
        0
    } else {
        digits_value(s.drop_last()) * 10 + (s.last() - 48)
    }
}

/// How many leading ASCII whitespace bytes `s` carries.
pub open spec fn trim_lo(s: Seq<u8>) -> int
    decreases s.len(),
{
    if s.len() == 0 {
        0
    } else if is_ascii_space(s[0]) {
        1 + trim_lo(s.subrange(1, s.len() as int))
    } else {
        0
    }
}

/// Where the trailing ASCII whitespace of `s` begins.
pub open spec fn trim_hi(s: Seq<u8>) -> int
    decreases s.len(),
{
    if s.len() == 0 {
        0
    } else if is_ascii_space(s.last()) {
        trim_hi(s.drop_last())
    } else {
        s.len() as int
    }
}

/// `s` with leading and trailing ASCII whitespace removed.
pub open spec fn trimmed(s: Seq<u8>) -> Seq<u8> {
    if trim_lo(s) >= trim_hi(s) {
        Seq::<u8>::empty()
    } else {
        s.subrange(trim_lo(s), trim_hi(s))
    }
}

/// What a stored high score reads as: trim ASCII whitespace, allow one
/// leading plus sign, and require at least one digit and a value that fits;
/// everything else — absence modeled as emptiness, stray characters, or
/// overflow — reads as zero.
pub open spec fn parse_score_spec(s: Seq<u8>) -> u32 {
    let t = trimmed(s);
    let body = if t.len() > 0 && t[0] == 43 {
        t.subrange(1, t.len() as int)
    } else {
        t
    };
    if body.len() > 0 && all_digits(body) && digits_value(body) <= u32::MAX {
        digits_value(body) as u32
    } else {
        0
    }
}

/// A digit string's value is never negative.
pub proof fn lemma_digits_value_nonneg(s: Seq<u8>)
    requires
        all_digits(s),
    ensures
        digits_value(s) >= 0,
    decreases s.len(),
{
    if s.len() > 0 {
        assert(all_digits(s.drop_last()));
        lemma_digits_value_nonneg(s.drop_last());
    }
}

/// A digit string's value only grows as more digits follow: any prefix
/// denotes at most the whole string's value.
pub proof fn lemma_digits_value_take_le(s: Seq<u8>, k: int)
    requires
        all_digits(s),
        0 <= k <= s.len(),
    ensures
        digits_value(s.take(k)) <= digits_value(s),
    decreases s.len() - k,
{
    if k == s.len() {
        assert(s.take(k) =~= s);
    } else {
        assert(s.take(k + 1).drop_last() =~= s.take(k));
        assert(s.take(k + 1).last() == s[k]);
        assert(all_digits(s.take(k)));
        lemma_digits_value_nonneg(s.take(k));
        lemma_digits_value_take_le(s, k + 1);
    }
}

/// The decimal digit bytes of `n`, most significant first.
pub open spec fn decimal_digits(n: nat) -> Seq<u8>
    decreases n,
{
    if n < 10 {
        seq![(48 + n) as u8]
    } else {
        decimal_digits(n / 10).push((48 + n % 10) as u8)
    }
}

/// Formats a score exactly as the store holds it: its decimal digits.
pub fn format_score(v: u32) -> (r: Vec<u8>)
    ensures
        r@ == decimal_digits(v as nat),
    decreases v,
{
    if v < 10 {
        let mut r: Vec<u8> = Vec::new();
        r.push(48 + (v as u8));
        proof {
            assert(r@ =~= decimal_digits(v as nat));
        }
        r
    } else {
        let mut r = format_score(v / 10);
        r.push(48 + ((v % 10) as u8));
        r
    }
}

/// Tests one byte for ASCII whitespace.
fn is_space_byte(b: u8) -> (r: bool)
    ensures
        r == is_ascii_space(b),
{
    b == 32 || (9 <= b && b <= 13)
}

/// Whether position `i` exists and holds ASCII whitespace.
fn space_at(bytes: &[u8], i: usize) -> (r: bool)
    ensures
        r == (i < bytes@.len() && is_ascii_space(bytes@[i as int])),
{
    if i < bytes.len() {
        is_space_byte(bytes[i])
    } else {
        false
    }
}

/// Whether position `hi - 1` is past `lo` and holds ASCII whitespace.
fn space_before(bytes: &[u8], lo: usize, hi: usize) -> (r: bool)
    requires
        hi <= bytes@.len(),
    ensures
        r == (hi > lo && is_ascii_space(bytes@[hi - 1])),
{
    if hi > lo {
        is_space_byte(bytes[hi - 1])
    } else {
        false
    }
}

/// Reads a stored high score: the trimmed digits' value, or zero where the
/// store holds no parsable value.
#[verifier::loop_isolation(false)]
pub fn parse_high_score(bytes: &[u8]) -> (r: u32)
    ensures
        r == parse_score_spec(bytes@),
{
    let ghost s = bytes@;
    let n = bytes.len();
    proof {
        assert(s.subrange(0, n as int) =~= s);
    }
    let mut lo: usize = 0;
    while space_at(bytes, lo)
        invariant
            n == s.len(),
            0 <= lo <= n,
            trim_lo(s) == lo + trim_lo(s.subrange(lo as int, n as int)),
        decreases n - lo,
    {
        proof {
            assert(s.subrange(lo as int, n as int)[0] == s[lo as int]);
            assert(is_ascii_space(s.subrange(lo as int, n as int)[0]));
            assert(s.subrange(lo as int, n as int).subrange(
                1,
                s.subrange(lo as int, n as int).len() as int,
            ) =~= s.subrange(lo as int + 1, n as int));
        }
        lo = lo + 1;
    }
    proof {
        if lo < n {
            assert(s.subrange(lo as int, n as int)[0] == s[lo as int]);
            assert(trim_lo(s.subrange(lo as int, n as int)) == 0);
        }
        assert(trim_lo(s) == lo);
    }
    let mut hi: usize = n;
    while space_before(bytes, lo, hi)
        invariant
            n == s.len(),
            lo <= hi <= n,
            trim_lo(s) == lo,
            trim_hi(s) == trim_hi(s.subrange(0, hi as int)),
        decreases hi,
    {
        proof {
            assert(s.subrange(0, hi as int).last() == s[hi as int - 1]);
            assert(is_ascii_space(s.subrange(0, hi as int).last()));
            assert(s.subrange(0, hi as int).drop_last() =~= s.subrange(0, hi as int - 1));
        }
        hi = hi - 1;
    }
    proof {
        if hi > lo {
            assert(s.subrange(0, hi as int).last() == s[hi as int - 1]);
            assert(trim_hi(s.subrange(0, hi as int)) == hi);
        } else {
            lemma_trim_hi_le_lo(s, lo as int, hi as int);
        }
    }
    if lo >= hi {
        return 0;
    }
    let ghost t = trimmed(s);
    proof {
        assert(trim_hi(s) == hi);
        assert(t =~= s.subrange(lo as int, hi as int));
    }
    let start: usize = if bytes[lo] == 43 {
        lo + 1
    } else {
        lo
    };
    let ghost body = if t[0] == 43 {
        t.subrange(1, t.len() as int)
    } else {
        t
    };
    proof {
        assert(body =~= s.subrange(start as int, hi as int));
    }
    if start >= hi {
        return 0;
    }
    let mut acc: u32 = 0;
    let mut j: usize = start;
    while j < hi
        invariant
            n == s.len(),
            start <= j <= hi <= n,
            hi <= n,
            body == s.subrange(start as int, hi as int),
            body.len() == hi - start,
            all_digits(body.take(j - start)),
            acc == digits_value(body.take(j - start)),
        decreases hi - j,
    {
        let b = bytes[j];
        proof {
            assert(body[j - start] == s[j as int]);
            assert(body.take(j - start + 1).drop_last() =~= body.take(j - start));
            assert(body.take(j - start + 1).last() == body[j - start]);
        }
        if !(48 <= b && b <= 57) {
            proof {
                assert(!is_digit(body[j - start]));
                assert(!all_digits(body));
            }
            return 0;
        }
        let d: u32 = (b - 48) as u32;
        if acc > (u32::MAX - d) / 10 {
            proof {
                assert(digits_value(body.take(j - start + 1)) == acc * 10 + d);
                assert(acc * 10 + d > u32::MAX) by (nonlinear_arith)
                    requires
                        acc > (u32::MAX - d) / 10,
                        0 <= d <= 9,
                ;
                if all_digits(body) {
                    lemma_digits_value_take_le(body, j - start + 1);
                }
            }
            return 0;
        }
        acc = acc * 10 + d;
        j = j + 1;
    }
    proof {
        assert(body.take(hi - start) =~= body);
    }
    acc
}

/// When the trailing-whitespace scan has run all the way down to the end of
/// the leading whitespace, the whole string is whitespace and the trimmed
/// bounds cross.
proof fn lemma_trim_hi_le_lo(s: Seq<u8>, lo: int, hi: int)
    requires
        0 <= hi <= lo <= s.len(),
        trim_lo(s) == lo,
        trim_hi(s) == trim_hi(s.subrange(0, hi)),
    ensures
        trim_hi(s) <= trim_lo(s),
{
    lemma_trim_hi_le_len(s.subrange(0, hi));
}

/// Where the trailing whitespace begins is never past the end.
proof fn lemma_trim_hi_le_len(s: Seq<u8>)
    ensures
        0 <= trim_hi(s) <= s.len(),
    decreases s.len(),
{
    if s.len() > 0 && is_ascii_space(s.last()) {
        lemma_trim_hi_le_len(s.drop_last());
    }
}

} // verus!
