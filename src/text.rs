//! The pieces of a comma-separated text: lines, fields and numbers.

use vstd::prelude::*;

verus! {

/// The parts of `s` between the occurrences of `sep`, in order.
///
/// There is always one more part than there are separators, so an empty
/// text has one empty part.
pub open spec fn split(s: Seq<u8>, sep: u8) -> Seq<Seq<u8>>
    decreases s.len(),
{
    if s.len() == 0 {
        seq![Seq::empty()]
    } else {
        let init = split(s.drop_last(), sep);
        if s.last() == sep {
            init.push(Seq::empty())
        } else {
            init.update(init.len() - 1, init.last().push(s.last()))
        }
    }
}

/// A split text has at least one part.
pub proof fn lemma_split_len(s: Seq<u8>, sep: u8)
    ensures
        split(s, sep).len() >= 1,
    decreases s.len(),
{
    if s.len() > 0 {
        lemma_split_len(s.drop_last(), sep);
    }
}

/// A line without the carriage return that ends it, if any.
pub open spec fn strip_cr(line: Seq<u8>) -> Seq<u8> {
    if line.len() > 0 && line.last() == 13u8 {
        line.drop_last()
    } else {
        line
    }
}

/// The lines of a text: the parts between newlines, where a line that a
/// newline ends loses a carriage return before it, and an empty part after
/// the last newline is no line.
pub open spec fn lines(s: Seq<u8>) -> Seq<Seq<u8>> {
    let parts = split(s, 10u8);
    let ended = parts.drop_last().map_values(|l: Seq<u8>| strip_cr(l));
    if parts.last().len() == 0 {
        ended
    } else {
        ended.push(parts.last())
    }
}

/// The comma-separated fields of a line.
pub open spec fn fields(line: Seq<u8>) -> Seq<Seq<u8>> {
    split(line, 44u8)
}

/// The byte sequences that a sequence of vectors holds.
pub open spec fn views(v: Seq<Vec<u8>>) -> Seq<Seq<u8>> {
    v.map_values(|x: Vec<u8>| x@)
}

/// Splits `s` at each occurrence of `sep`.
pub fn split_bytes(s: &[u8], sep: u8) -> (r: Vec<Vec<u8>>)
    ensures
        views(r@) == split(s@, sep),
{
    let mut done: Vec<Vec<u8>> = Vec::new();
    let mut current: Vec<u8> = Vec::new();
    let mut i: usize = 0;
    while i < s.len()
        invariant
            i <= s.len(),
            views(done@).push(current@) == split(s@.subrange(0, i as int), sep),
        decreases s.len() - i,
    {
        let ghost before = s@.subrange(0, i as int);
        let ghost after = s@.subrange(0, i + 1);
        assert(after.drop_last() == before);
        assert(after.last() == s@[i as int]);
        proof {
            lemma_split_len(before, sep);
        }
        if s[i] == sep {
            let finished = current;
            current = Vec::new();
            done.push(finished);
            assert(views(done@) =~= split(before, sep));
            assert(views(done@).push(current@) =~= split(after, sep));
        } else {
            current.push(s[i]);
            assert(views(done@).push(current@) =~= split(after, sep));
        }
        i = i + 1;
    }
    assert(s@.subrange(0, s.len() as int) == s@);
    let ghost last = current@;
    done.push(current);
    assert(views(done@) =~= split(s@, sep));
    done
}

/// Splits a text into its lines.
pub fn split_lines(s: &[u8]) -> (r: Vec<Vec<u8>>)
    ensures
        views(r@) == lines(s@),
{
    let parts = split_bytes(s, 10u8);
    proof {
        lemma_split_len(s@, 10u8);
    }
    let ghost ended = views(parts@).drop_last().map_values(|l: Seq<u8>| strip_cr(l));
    let n = parts.len() - 1;
    let mut out: Vec<Vec<u8>> = Vec::new();
    let mut k: usize = 0;
    while k < n
        invariant
            n + 1 == parts.len(),
            k <= n,
            views(parts@) == split(s@, 10u8),
            ended == views(parts@).drop_last().map_values(|l: Seq<u8>| strip_cr(l)),
            views(out@) == ended.subrange(0, k as int),
        decreases n - k,
    {
        let mut line = parts[k].clone();
        let len = line.len();
        if len > 0 && line[len - 1] == 13u8 {
            line.pop();
        }
        assert(line@ == strip_cr(views(parts@)[k as int]));
        assert(views(parts@).drop_last()[k as int] == views(parts@)[k as int]);
        assert(ended[k as int] == line@);
        let ghost prev = views(out@);
        out.push(line);
        assert(views(out@) =~= prev.push(ended[k as int]));
        k = k + 1;
        assert(views(out@) =~= ended.subrange(0, k as int));
    }
    assert(ended.subrange(0, n as int) =~= ended);
    if parts[n].len() > 0 {
        let last = parts[n].clone();
        out.push(last);
        assert(views(out@) =~= ended.push(views(parts@).last()));
    }
    out
}

/// Whether a byte is an ASCII decimal digit.
pub open spec fn is_digit(b: u8) -> bool {
    48 <= b <= 57
}

/// Whether every byte of `s` is a decimal digit.
pub open spec fn all_digits(s: Seq<u8>) -> bool {
    forall|i: int| 0 <= i < s.len() ==> is_digit(#[trigger] s[i])
}

/// The number that a run of decimal digits writes.
pub open spec fn digits_value(s: Seq<u8>) -> int
    decreases s.len(),
{
    if s.len() == 0 {
        0
    } else {
        digits_value(s.drop_last()) * 10 + (s.last() - 48)
    }
}

/// Ten to the power `k`.
pub open spec fn pow10(k: nat) -> int
    decreases k,
{
    if k == 0 {
        1
    } else {
        10 * pow10((k - 1) as nat)
    }
}

/// Whether a number is written with a leading minus sign.
pub open spec fn is_negative(s: Seq<u8>) -> bool {
    s.len() > 0 && s[0] == 45u8
}

/// A number without its leading sign, if it has one.
pub open spec fn unsigned_part(s: Seq<u8>) -> Seq<u8> {
    if s.len() > 0 && (s[0] == 45u8 || s[0] == 43u8) {
        s.drop_first()
    } else {
        s
    }
}

/// `v`, negated when `neg` holds.
pub open spec fn signed(neg: bool, v: int) -> int {
    if neg {
        -v
    } else {
        v
    }
}

/// Whether a number fits an `i64`.
pub open spec fn fits_i64(v: int) -> bool {
    i64::MIN <= v <= i64::MAX
}

/// The integer that `s` writes: an optional sign and one or more decimal
/// digits, whose value fits an `i64`.
pub open spec fn integer_value(s: Seq<u8>) -> Option<int> {
    let u = unsigned_part(s);
    let v = signed(is_negative(s), digits_value(u));
    if u.len() > 0 && all_digits(u) && fits_i64(v) {
        Some(v)
    } else {
        None
    }
}

/// The index of the first `b` in `s`, or the length of `s` if there is none.
pub open spec fn index_of(s: Seq<u8>, b: u8) -> int
    decreases s.len(),
{
    if s.len() == 0 {
        0
    } else if s[0] == b {
        0
    } else {
        1 + index_of(s.drop_first(), b)
    }
}

/// The digits before the decimal point of an unsigned number.
pub open spec fn whole_digits(u: Seq<u8>) -> Seq<u8> {
    u.subrange(0, index_of(u, 46u8))
}

/// The digits after the decimal point of an unsigned number.
pub open spec fn fraction_digits(u: Seq<u8>) -> Seq<u8> {
    let k = index_of(u, 46u8);
    if k < u.len() {
        u.subrange(k + 1, u.len() as int)
    } else {
        Seq::empty()
    }
}

/// The number of fraction digits that count: nine at most.
pub open spec fn kept_digits(f: Seq<u8>) -> nat {
    if f.len() < 9 {
        f.len()
    } else {
        9
    }
}

/// The value of an unsigned decimal in billionths, with the fraction
/// truncated after nine digits.
pub open spec fn billionths(u: Seq<u8>) -> int {
    let f = fraction_digits(u);
    let m = kept_digits(f);
    digits_value(whole_digits(u)) * 1_000_000_000 + digits_value(f.subrange(0, m as int)) * pow10(
        (9 - m) as nat,
    )
}

/// The decimal that `s` writes, counted in billionths: an optional sign,
/// then digits with at most one decimal point among them, at least one
/// digit in all. Fraction digits past the ninth are dropped. `None` when
/// `s` is not such a number or its value does not fit an `i64`.
pub open spec fn decimal_value(s: Seq<u8>) -> Option<int> {
    let u = unsigned_part(s);
    let w = whole_digits(u);
    let f = fraction_digits(u);
    let v = signed(is_negative(s), billionths(u));
    if w.len() + f.len() > 0 && all_digits(w) && all_digits(f) && fits_i64(v) {
        Some(v)
    } else {
        None
    }
}

/// A run of digits is worth at least any of its prefixes.
pub proof fn lemma_digits_prefix(t: Seq<u8>, j: int)
    requires
        all_digits(t),
        0 <= j <= t.len(),
    ensures
        digits_value(t) >= digits_value(t.subrange(0, j)),
        digits_value(t) >= 0,
    decreases t.len(),
{
    if t.len() > 0 {
        let d = t.drop_last();
        assert(all_digits(d));
        if j == t.len() {
            assert(t.subrange(0, j) == t);
            lemma_digits_prefix(d, 0);
        } else {
            assert(d.subrange(0, j) == t.subrange(0, j));
            lemma_digits_prefix(d, j);
        }
    } else {
        assert(t.subrange(0, j) == t);
    }
}

/// The first `b` is where a scan that met no `b` stops.
pub proof fn lemma_index_of(s: Seq<u8>, b: u8, i: int)
    requires
        0 <= i <= s.len(),
        forall|j: int| 0 <= j < i ==> s[j] != b,
        i == s.len() || s[i] == b,
    ensures
        index_of(s, b) == i,
    decreases i,
{
    if i > 0 {
        lemma_index_of(s.drop_first(), b, i - 1);
    }
}

/// The value of the digits in `s[lo..hi]`.
///
/// Returns `None` unless they are all digits and their value is at most
/// `limit`.
fn read_digits(s: &[u8], lo: usize, hi: usize, limit: u64) -> (r: Option<u64>)
    requires
        lo <= hi <= s.len(),
        limit <= 0x8000_0000_0000_0000,
    ensures
        r is Some <==> all_digits(s@.subrange(lo as int, hi as int)) && digits_value(
            s@.subrange(lo as int, hi as int),
        ) <= limit,
        r matches Some(v) ==> v == digits_value(s@.subrange(lo as int, hi as int)),
{
    let ghost t = s@.subrange(lo as int, hi as int);
    let mut acc: u64 = 0;
    let mut i: usize = lo;
    while i < hi
        invariant
            lo <= i <= hi <= s.len(),
            limit <= 0x8000_0000_0000_0000,
            t == s@.subrange(lo as int, hi as int),
            all_digits(t.subrange(0, i - lo)),
            acc == digits_value(t.subrange(0, i - lo)),
            acc <= limit,
        decreases hi - i,
    {
        let b = s[i];
        if b < 48u8 || b > 57u8 {
            assert(!is_digit(t[i - lo]));
            return None;
        }
        let next: u128 = acc as u128 * 10 + (b - 48u8) as u128;
        let ghost pre = t.subrange(0, i - lo + 1);
        assert(pre.drop_last() == t.subrange(0, i - lo));
        assert(next == digits_value(pre));
        assert(all_digits(pre));
        if next > limit as u128 {
            proof {
                if all_digits(t) {
                    lemma_digits_prefix(t, i - lo + 1);
                }
            }
            return None;
        }
        acc = next as u64;
        i = i + 1;
    }
    assert(t.subrange(0, hi - lo) == t);
    Some(acc)
}

/// The sign of a number and where its digits start.
fn sign_of(s: &[u8]) -> (r: (bool, usize))
    ensures
        r.0 == is_negative(s@),
        r.1 <= s.len(),
        s@.subrange(r.1 as int, s.len() as int) == unsigned_part(s@),
{
    if s.len() > 0 && (s[0] == 45u8 || s[0] == 43u8) {
        assert(s@.subrange(1, s.len() as int) == s@.drop_first());
        (s[0] == 45u8, 1)
    } else {
        assert(s@.subrange(0, s.len() as int) == s@);
        (false, 0)
    }
}

/// Reads an integer: an optional sign and one or more decimal digits.
pub fn parse_integer(s: &[u8]) -> (r: Option<i64>)
    ensures
        r matches Some(v) ==> integer_value(s@) == Some(v as int),
        r is None ==> integer_value(s@) is None,
{
    let (neg, start) = sign_of(s);
    if start == s.len() {
        return None;
    }
    match read_digits(s, start, s.len(), 0x8000_0000_0000_0000) {
        Some(v) => {
            if neg {
                Some((0 - v as i128) as i64)
            } else if v <= 0x7fff_ffff_ffff_ffff {
                Some(v as i64)
            } else {
                None
            }
        },
        None => None,
    }
}

/// Powers of ten are positive.
pub proof fn lemma_pow10_pos(k: nat)
    ensures
        pow10(k) >= 1,
    decreases k,
{
    if k > 0 {
        lemma_pow10_pos((k - 1) as nat);
    }
}

/// Ten to the `k` times ten to the `9 - k` is a billion.
pub proof fn lemma_pow10_billion(k: nat)
    requires
        k <= 9,
    ensures
        pow10(k) * pow10((9 - k) as nat) == 1_000_000_000,
        1 <= pow10(k) <= 1_000_000_000,
        1 <= pow10((9 - k) as nat) <= 1_000_000_000,
{
    reveal_with_fuel(pow10, 10);
    assert(pow10(0) == 1);
    assert(pow10(1) == 10);
    assert(pow10(2) == 100);
    assert(pow10(3) == 1000);
    assert(pow10(4) == 10000);
    assert(pow10(5) == 100000);
    assert(pow10(6) == 1000000);
    assert(pow10(7) == 10000000);
    assert(pow10(8) == 100000000);
    assert(pow10(9) == 1000000000);
    assert(k == 0 || k == 1 || k == 2 || k == 3 || k == 4 || k == 5 || k == 6 || k == 7 || k == 8
        || k == 9);
}

/// A run of `k` digits is worth less than ten to the `k`.
pub proof fn lemma_digits_bound(t: Seq<u8>)
    requires
        all_digits(t),
    ensures
        0 <= digits_value(t) < pow10(t.len()),
    decreases t.len(),
{
    if t.len() > 0 {
        let d = t.drop_last();
        assert(all_digits(d));
        lemma_digits_bound(d);
        assert(is_digit(t[t.len() - 1]));
    }
}

/// Whether `s[lo..hi]` holds only decimal digits.
fn check_digits(s: &[u8], lo: usize, hi: usize) -> (r: bool)
    requires
        lo <= hi <= s.len(),
    ensures
        r == all_digits(s@.subrange(lo as int, hi as int)),
{
    let mut i: usize = lo;
    while i < hi
        invariant
            lo <= i <= hi <= s.len(),
            forall|j: int| lo <= j < i ==> is_digit(#[trigger] s@[j]),
        decreases hi - i,
    {
        if s[i] < 48u8 || s[i] > 57u8 {
            assert(!is_digit(s@.subrange(lo as int, hi as int)[i - lo]));
            return false;
        }
        i = i + 1;
    }
    assert forall|j: int| 0 <= j < hi - lo implies is_digit(
        #[trigger] s@.subrange(lo as int, hi as int)[j],
    ) by {
        assert(s@.subrange(lo as int, hi as int)[j] == s@[lo + j]);
    }
    true
}

/// Ten to the power `k`, for `k` up to nine.
fn pow10_exec(k: usize) -> (r: u64)
    requires
        k <= 9,
    ensures
        r == pow10(k as nat),
        1 <= r <= 1_000_000_000,
{
    proof {
        reveal_with_fuel(pow10, 10);
    }
    let mut r: u64 = 1;
    let mut i: usize = 0;
    while i < k
        invariant
            i <= k <= 9,
            r == pow10(i as nat),
            r * pow10((9 - i) as nat) == 1_000_000_000,
        decreases k - i,
    {
        proof {
            reveal_with_fuel(pow10, 10);
            let a = pow10((9 - i) as nat);
            let b = pow10((9 - i - 1) as nat);
            assert(a == 10 * b);
            assert((r * 10) * b == r * a) by (nonlinear_arith)
                requires
                    a == 10 * b,
            ;
        }
        r = r * 10;
        i = i + 1;
    }
    r
}

/// Reads a decimal, counted in billionths: an optional sign, then digits
/// with at most one decimal point among them. Fraction digits past the
/// ninth are dropped.
pub fn parse_decimal(s: &[u8]) -> (r: Option<i64>)
    ensures
        r matches Some(v) ==> decimal_value(s@) == Some(v as int),
        r is None ==> decimal_value(s@) is None,
{
    let (neg, start) = sign_of(s);
    let ghost u = unsigned_part(s@);
    let mut k: usize = start;
    while k < s.len() && s[k] != 46u8
        invariant
            start <= k <= s.len(),
            u == s@.subrange(start as int, s.len() as int),
            forall|j: int| 0 <= j < k - start ==> u[j] != 46u8,
        decreases s.len() - k,
    {
        k = k + 1;
    }
    proof {
        lemma_index_of(u, 46u8, k - start);
    }
    let frac_start: usize = if k < s.len() {
        k + 1
    } else {
        s.len()
    };
    let ghost w = whole_digits(u);
    let ghost f = fraction_digits(u);
    assert(w == s@.subrange(start as int, k as int));
    assert(f == s@.subrange(frac_start as int, s.len() as int));
    if k - start + (s.len() - frac_start) == 0 {
        return None;
    }
    let whole = match read_digits(s, start, k, 9_223_372_036) {
        Some(v) => v,
        None => {
            proof {
                if all_digits(w) && all_digits(f) {
                    let m = kept_digits(f);
                    lemma_digits_bound(f.subrange(0, m as int));
                    lemma_pow10_pos((9 - m) as nat);
                    assert(digits_value(w) * 1_000_000_000 >= 9_223_372_037 * 1_000_000_000)
                        by (nonlinear_arith)
                        requires
                            digits_value(w) >= 9_223_372_037,
                    ;
                    assert(digits_value(f.subrange(0, m as int)) * pow10((9 - m) as nat) >= 0)
                        by (nonlinear_arith)
                        requires
                            digits_value(f.subrange(0, m as int)) >= 0,
                            pow10((9 - m) as nat) >= 1,
                    ;
                }
            }
            return None;
        },
    };
    let flen = s.len() - frac_start;
    let m: usize = if flen < 9 {
        flen
    } else {
        9
    };
    let ghost kept = f.subrange(0, m as int);
    assert(kept == s@.subrange(frac_start as int, (frac_start + m) as int));
    let first = read_digits(s, frac_start, frac_start + m, 0x8000_0000_0000_0000);
    let rest_ok = check_digits(s, frac_start + m, s.len());
    assert(f.subrange(m as int, f.len() as int) == s@.subrange((frac_start + m) as int, s.len() as int));
    proof {
        lemma_pow10_billion(m as nat);
        if all_digits(kept) {
            lemma_digits_bound(kept);
            lemma_digits_prefix(kept, 0);
        }
        if all_digits(f) {
            assert(all_digits(kept));
            assert(all_digits(f.subrange(m as int, f.len() as int)));
        }
        if all_digits(kept) && all_digits(f.subrange(m as int, f.len() as int)) {
            assert forall|j: int| 0 <= j < f.len() implies is_digit(#[trigger] f[j]) by {
                if j < m {
                    assert(f[j] == kept[j]);
                } else {
                    assert(f[j] == f.subrange(m as int, f.len() as int)[j - m]);
                }
            }
        }
    }
    let frac = match first {
        Some(v) => v,
        None => {
            return None;
        },
    };
    if !rest_ok {
        return None;
    }
    let scale = pow10_exec(9 - m);
    proof {
        lemma_pow10_billion(m as nat);
    }
    assert(frac * scale < 1_000_000_000) by (nonlinear_arith)
        requires
            frac < pow10(m as nat),
            pow10(m as nat) * scale == 1_000_000_000,
            0 <= frac,
            scale >= 1,
    ;
    let total: i128 = whole as i128 * 1_000_000_000 + (frac * scale) as i128;
    assert(total == billionths(u));
    let value: i128 = if neg {
        -total
    } else {
        total
    };
    if value < -0x8000_0000_0000_0000 || value > 0x7fff_ffff_ffff_ffff {
        return None;
    }
    Some(value as i64)
}

} // verus!
