//! Prices as exact decimals, and the normalisation of price-like text.

use crate::spiders::SpiderError;
use crate::text::{
    all_white_space, is_white_space, lemma_trimmed_ignores_outer_space,
    lemma_without_keeps_prefix, lemma_without_keeps_suffix, lemma_without_shift, matches_at,
    remove_all, to_chars, trim, trimmed, without_all, without_from,
};
use vstd::prelude::*;

verus! {

/// A decimal number: `mantissa / 10^scale`, negated if `negative`.
#[derive(Clone, Copy, Debug, PartialEq, Eq, Structural)]
pub struct Price {
    pub negative: bool,
    pub mantissa: u64,
    pub scale: usize,
}

/// Mantissa and scale of the same number without a zero at the end of
/// its fraction.
pub open spec fn reduced(mantissa: nat, scale: nat) -> (nat, nat)
    decreases scale,
{
    if scale > 0 && mantissa % 10 == 0 {
        reduced(mantissa / 10, (scale - 1) as nat)
    } else {
        (mantissa, scale)
    }
}

/// The price with the given sign, mantissa and scale in its reduced form:
/// no zero at the end of its fraction, and no sign on zero.
pub open spec fn reduced_price(negative: bool, mantissa: nat, scale: nat) -> Price {
    Price {
        negative: negative && mantissa > 0,
        mantissa: reduced(mantissa, scale).0 as u64,
        scale: reduced(mantissa, scale).1 as usize,
    }
}

/// Reducing makes neither part larger, keeps zero apart from the rest,
/// and leaves no zero at the end of the fraction.
pub proof fn lemma_reduced(mantissa: nat, scale: nat)
    ensures
        reduced(mantissa, scale).0 <= mantissa,
        reduced(mantissa, scale).1 <= scale,
        (reduced(mantissa, scale).0 > 0) == (mantissa > 0),
        reduced(mantissa, scale).1 == 0 || reduced(mantissa, scale).0 % 10 != 0,
    decreases scale,
{
    if scale > 0 && mantissa % 10 == 0 {
        lemma_reduced(mantissa / 10, (scale - 1) as nat);
    }
}

impl Price {
    /// Whether the price is written in the one way that is its reduced
    /// form, so that equal numbers are equal prices.
    pub open spec fn is_reduced(self) -> bool {
        &&& self.scale == 0 || self.mantissa % 10 != 0
        &&& self.negative ==> self.mantissa > 0
    }

    /// The price with the given sign, mantissa and scale, in its reduced
    /// form.
    pub fn new(negative: bool, mantissa: u64, scale: usize) -> (r: Price)
        ensures
            r == reduced_price(negative, mantissa as nat, scale as nat),
            r.is_reduced(),
    {
        let mut m: u64 = mantissa;
        let mut s: usize = scale;
        while s > 0 && m % 10 == 0
            invariant
                reduced(m as nat, s as nat) == reduced(mantissa as nat, scale as nat),
                (m > 0) == (mantissa > 0),
            decreases s,
        {
            m = m / 10;
            s = s - 1;
        }
        proof {
            lemma_reduced(mantissa as nat, scale as nat);
        }
        Price { negative: negative && mantissa > 0, mantissa: m, scale: s }
    }
}

/// Whether `c` is one of the digits `0` to `9`.
pub open spec fn is_digit(c: char) -> bool {
    48 <= c as u32 <= 57
}

/// Whether `t` starts with `+` or `-`.
pub open spec fn has_sign(t: Seq<char>) -> bool {
    t.len() > 0 && (t[0] == '-' || t[0] == '+')
}

/// `t` without its sign, if it has one.
pub open spec fn unsigned_part(t: Seq<char>) -> Seq<char> {
    if has_sign(t) {
        t.drop_first()
    } else {
        t
    }
}

/// How many of the first `k` characters of `b` are a decimal point.
pub open spec fn points_in(b: Seq<char>, k: int) -> nat
    decreases k,
{
    if k <= 0 {
        0
    } else if b[k - 1] == '.' {
        points_in(b, k - 1) + 1
    } else {
        points_in(b, k - 1)
    }
}

/// How many of the first `k` characters of `b` are digits.
pub open spec fn digits_in(b: Seq<char>, k: int) -> nat
    decreases k,
{
    if k <= 0 {
        0
    } else if is_digit(b[k - 1]) {
        digits_in(b, k - 1) + 1
    } else {
        digits_in(b, k - 1)
    }
}

/// The number that the digits among the first `k` characters of `b` spell,
/// whatever stands between them.
pub open spec fn mantissa_in(b: Seq<char>, k: int) -> nat
    decreases k,
{
    if k <= 0 {
        0
    } else if is_digit(b[k - 1]) {
        (mantissa_in(b, k - 1) * 10 + (b[k - 1] as u32 - 48)) as nat
    } else {
        mantissa_in(b, k - 1)
    }
}

/// How many digits among the first `k` characters of `b` stand behind a
/// decimal point.
pub open spec fn fraction_in(b: Seq<char>, k: int) -> nat
    decreases k,
{
    if k <= 0 {
        0
    } else if is_digit(b[k - 1]) && points_in(b, k - 1) > 0 {
        fraction_in(b, k - 1) + 1
    } else {
        fraction_in(b, k - 1)
    }
}

/// Whether each of the first `k` characters of `b` is a digit or a point.
pub open spec fn plain_until(b: Seq<char>, k: int) -> bool {
    forall|i: int| 0 <= i < k ==> is_digit(#[trigger] b[i]) || b[i] == '.'
}

/// Whether `b` is digits with at most one decimal point anywhere among
/// them, and at least one digit.
pub open spec fn is_decimal(b: Seq<char>) -> bool {
    &&& plain_until(b, b.len() as int)
    &&& points_in(b, b.len() as int) <= 1
    &&& digits_in(b, b.len() as int) >= 1
}

/// The price that `t` spells: an optional sign and a decimal whose digits
/// fit in 64 bits, in its reduced form. Nothing else spells a price.
pub open spec fn price_of(t: Seq<char>) -> Option<Price> {
    let b = unsigned_part(t);
    if is_decimal(b) && mantissa_in(b, b.len() as int) <= u64::MAX {
        Some(
            reduced_price(
                has_sign(t) && t[0] == '-',
                mantissa_in(b, b.len() as int),
                fraction_in(b, b.len() as int),
            ),
        )
    } else {
        None
    }
}

proof fn lemma_counts_grow(b: Seq<char>, j: int, k: int)
    requires
        0 <= j <= k,
    ensures
        points_in(b, j) <= points_in(b, k),
        mantissa_in(b, j) <= mantissa_in(b, k),
        fraction_in(b, k) <= k,
        digits_in(b, k) <= k,
    decreases k,
{
    if k > 0 {
        if j < k {
            lemma_counts_grow(b, j, k - 1);
        } else {
            lemma_counts_grow(b, k - 1, k - 1);
        }
    }
}

/// Reads an optional sign and a decimal number.
pub fn parse_decimal(t: &Vec<char>) -> (r: Option<Price>)
    ensures
        r == price_of(t@),
        r matches Some(p) ==> p.is_reduced(),
{
    let n: usize = t.len();
    let mut negative: bool = false;
    let mut start: usize = 0;
    if n > 0 && (t[0] == '-' || t[0] == '+') {
        negative = t[0] == '-';
        start = 1;
    }
    let ghost b = unsigned_part(t@);
    assert(b == t@.subrange(start as int, n as int));
    let mut i: usize = start;
    let mut mantissa: u64 = 0;
    let mut scale: usize = 0;
    let mut points: usize = 0;
    let mut digits: usize = 0;
    while i < n
        invariant
            start <= i <= n,
            n == t@.len(),
            b == t@.subrange(start as int, n as int),
            b == unsigned_part(t@),
            plain_until(b, i - start),
            points == points_in(b, i - start),
            points <= 1,
            digits == digits_in(b, i - start),
            digits <= i - start,
            mantissa == mantissa_in(b, i - start),
            scale == fraction_in(b, i - start),
            scale <= i - start,
        decreases n - i,
    {
        let c: char = t[i];
        let code: u32 = c as u32;
        let ghost k = i - start;
        assert(b[k] == c);
        if 48 <= code && code <= 57 {
            let d: u64 = (code - 48) as u64;
            if mantissa > (u64::MAX - d) / 10 {
                proof {
                    assert(mantissa_in(b, k + 1) > u64::MAX);
                    lemma_counts_grow(b, k + 1, b.len() as int);
                }
                return None;
            }
            mantissa = mantissa * 10 + d;
            digits += 1;
            if points == 1 {
                scale += 1;
            }
        } else if c == '.' && points == 0 {
            points = 1;
        } else {
            proof {
                if c == '.' {
                    assert(points_in(b, k + 1) == 2);
                    lemma_counts_grow(b, k + 1, b.len() as int);
                } else {
                    assert(!is_digit(b[k]) && b[k] != '.');
                }
            }
            return None;
        }
        i += 1;
    }
    if digits == 0 {
        return None;
    }
    Some(Price::new(negative, mantissa, scale))
}

/// The text of a price once the currency markers `S/.` and `S/` and the
/// thousands separators are taken out and the rest is trimmed.
pub open spec fn price_text(x: Seq<char>) -> Seq<char> {
    trimmed(without_all(without_all(without_all(x, seq!['S', '/', '.']), seq!['S', '/']), seq![',']))
}

proof fn lemma_space_stays(before: Seq<char>, t: Seq<char>, after: Seq<char>, pat: Seq<char>)
    requires
        all_white_space(before),
        all_white_space(after),
        pat.len() > 0,
        forall|k: int| 0 <= k < pat.len() ==> !is_white_space(#[trigger] pat[k]),
    ensures
        without_all(before + t + after, pat) == before + without_all(t, pat) + after,
{
    assert(before + t + after == before + (t + after));
    assert forall|j: int| 0 <= j < before.len() implies before[j] != pat[0] by {
        assert(is_white_space(before[j]));
    }
    lemma_without_keeps_prefix(before, t + after, pat, 0);
    assert(before.subrange(0, before.len() as int) == before);
    assert forall|j: int, k: int| 0 <= j < after.len() && 0 <= k < pat.len() implies after[j]
        != pat[k] by {
        assert(is_white_space(after[j]));
        assert(!is_white_space(pat[k]));
    }
    lemma_without_keeps_suffix(t, after, pat, 0);
    assert(before + (without_all(t, pat) + after) == before + without_all(t, pat) + after);
}

/// White space round a price text changes nothing of its normal form, and
/// so nothing of the price it spells.
pub proof fn lemma_outer_space_keeps_price(before: Seq<char>, t: Seq<char>, after: Seq<char>)
    requires
        all_white_space(before),
        all_white_space(after),
    ensures
        price_text(before + t + after) == price_text(t),
        price_of(price_text(before + t + after)) == price_of(price_text(t)),
{
    let sol_dot = seq!['S', '/', '.'];
    let sol = seq!['S', '/'];
    let comma = seq![','];
    lemma_space_stays(before, t, after, sol_dot);
    let a = without_all(t, sol_dot);
    lemma_space_stays(before, a, after, sol);
    let b = without_all(a, sol);
    lemma_space_stays(before, b, after, comma);
    lemma_trimmed_ignores_outer_space(before, without_all(b, comma), after);
}

/// The currency marker `S/.` in front of a price text changes nothing of
/// its normal form, and so nothing of the price it spells.
pub proof fn lemma_marker_keeps_price(t: Seq<char>)
    ensures
        price_text(seq!['S', '/', '.'] + t) == price_text(t),
        price_of(price_text(seq!['S', '/', '.'] + t)) == price_of(price_text(t)),
{
    let sol_dot = seq!['S', '/', '.'];
    let s = sol_dot + t;
    assert(s[0] == 'S' && s[1] == '/' && s[2] == '.');
    lemma_without_shift(sol_dot, t, sol_dot, 0);
    assert(without_all(s, sol_dot) == without_all(t, sol_dot));
}

/// The currency marker `S/` in front of a price text that does not go on
/// with a point changes nothing of its normal form, and so nothing of the
/// price it spells.
pub proof fn lemma_short_marker_keeps_price(t: Seq<char>)
    requires
        t.len() == 0 || t[0] != '.',
    ensures
        price_text(seq!['S', '/'] + t) == price_text(t),
        price_of(price_text(seq!['S', '/'] + t)) == price_of(price_text(t)),
{
    let sol_dot = seq!['S', '/', '.'];
    let sol = seq!['S', '/'];
    let s = sol + t;
    assert(s[0] == 'S' && s[1] == '/');
    if t.len() > 0 {
        assert(s[2] == t[0]);
    }
    assert(!matches_at(s, sol_dot, 0)) by {
        if matches_at(s, sol_dot, 0) {
            assert(s[0int + 2] == sol_dot[2]);
        }
    }
    assert(!matches_at(s, sol_dot, 1)) by {
        if matches_at(s, sol_dot, 1) {
            assert(s[1int + 0] == sol_dot[0]);
        }
    }
    lemma_without_shift(sol, t, sol_dot, 0);
    let u = without_all(t, sol_dot);
    assert(without_from(s, sol_dot, 1) == seq!['/'] + u);
    assert(without_all(s, sol_dot) == seq!['S'] + (seq!['/'] + u));
    assert(seq!['S'] + (seq!['/'] + u) == sol + u);
    let v = sol + u;
    assert(v[0] == 'S' && v[1] == '/');
    assert(matches_at(v, sol, 0));
    lemma_without_shift(sol, u, sol, 0);
    assert(without_all(v, sol) == without_all(u, sol));
}

/// Normalises a price-like string and reads it as a decimal. Text that
/// spells no price gives `PriceParseError` with the text as it came.
pub fn parse_price(x: &str) -> (r: Result<Price, SpiderError>)
    ensures
        match r {
            Ok(p) => price_of(price_text(x@)) == Some(p) && p.is_reduced(),
            Err(e) => price_of(price_text(x@)) is None && (e matches SpiderError::PriceParseError(s)
                && s@ == x@),
        },
{
    let chars = to_chars(x);
    let sol_dot: Vec<char> = vec!['S', '/', '.'];
    let sol: Vec<char> = vec!['S', '/'];
    let comma: Vec<char> = vec![','];
    assert(sol_dot@ == seq!['S', '/', '.']);
    assert(sol@ == seq!['S', '/']);
    assert(comma@ == seq![',']);
    let a = remove_all(&chars, &sol_dot);
    let b = remove_all(&a, &sol);
    let c = remove_all(&b, &comma);
    let t = trim(&c);
    match parse_decimal(&t) {
        Some(p) => Ok(p),
        None => Err(SpiderError::PriceParseError(String::from_str(x))),
    }
}

} // verus!
