//! Character-level helpers shared by the extraction rules.

use vstd::prelude::*;

verus! {

/// Appends one character with `String::push`: the string afterwards is the
/// string before followed by `c`. Trusted, not proved.
#[verifier::external_body]
pub(crate) fn push_char(s: &mut String, c: char)
    ensures
        final(s)@ == old(s)@.push(c),
{
    s.push(c);
}

/// Whether two strings hold the same characters.
pub fn same_text(a: &str, b: &str) -> (r: bool)
    ensures
        r == (a@ == b@),
{
    String::from_str(a) == String::from_str(b)
}

/// The characters of a string, in order.
pub fn to_chars(s: &str) -> (r: Vec<char>)
    ensures
        r@ == s@,
{
    let mut out: Vec<char> = Vec::new();
    for c in it: s.chars()
        invariant
            out@ == it.seq().take(it.index() as int),
            it.seq() == s@,
    {
        out.push(c);
    }
    out
}

/// The string made of the given characters, in order.
pub fn from_chars(v: &Vec<char>) -> (r: String)
    ensures
        r@ == v@,
{
    let mut out: String = String::new();
    let mut i: usize = 0;
    while i < v.len()
        invariant
            i <= v.len(),
            out@ == v@.subrange(0, i as int),
        decreases v.len() - i,
    {
        push_char(&mut out, v[i]);
        i += 1;
    }
    out
}

/// Whether `c` has the Unicode property White_Space.
pub open spec fn is_white_space(c: char) -> bool {
    let n = c as u32;
    ||| 0x09 <= n <= 0x0d
    ||| n == 0x20
    ||| n == 0x85
    ||| n == 0xa0
    ||| n == 0x1680
    ||| 0x2000 <= n <= 0x200a
    ||| n == 0x2028
    ||| n == 0x2029
    ||| n == 0x202f
    ||| n == 0x205f
    ||| n == 0x3000
}

/// Whether `c` is white space.
pub fn is_whitespace(c: char) -> (b: bool)
    ensures
        b == is_white_space(c),
{
    let n: u32 = c as u32;
    (0x09 <= n && n <= 0x0d) || n == 0x20 || n == 0x85 || n == 0xa0 || n == 0x1680 || (0x2000 <= n
        && n <= 0x200a) || n == 0x2028 || n == 0x2029 || n == 0x202f || n == 0x205f || n == 0x3000
}

/// `s` without its leading white space.
pub open spec fn skip_leading(s: Seq<char>) -> Seq<char>
    decreases s.len(),
{
    if s.len() > 0 && is_white_space(s[0]) {
        skip_leading(s.drop_first())
    } else {
        s
    }
}

/// `s` without its trailing white space.
pub open spec fn skip_trailing(s: Seq<char>) -> Seq<char>
    decreases s.len(),
{
    if s.len() > 0 && is_white_space(s.last()) {
        skip_trailing(s.drop_last())
    } else {
        s
    }
}

/// `s` without leading and trailing white space.
pub open spec fn trimmed(s: Seq<char>) -> Seq<char> {
    skip_trailing(skip_leading(s))
}

/// Removes leading and trailing white space.
pub fn trim(v: &Vec<char>) -> (r: Vec<char>)
    ensures
        r@ == trimmed(v@),
{
    let n: usize = v.len();
    let mut a: usize = 0;
    assert(v@.subrange(0, n as int) == v@);
    while a < n && is_whitespace(v[a])
        invariant
            a <= n,
            n == v@.len(),
            skip_leading(v@) == skip_leading(v@.subrange(a as int, n as int)),
        decreases n - a,
    {
        assert(v@.subrange(a as int, n as int).drop_first() == v@.subrange(a + 1, n as int));
        a += 1;
    }
    assert(skip_leading(v@) == v@.subrange(a as int, n as int));
    let mut b: usize = n;
    while b > a && is_whitespace(v[b - 1])
        invariant
            a <= b <= n,
            n == v@.len(),
            trimmed(v@) == skip_trailing(v@.subrange(a as int, b as int)),
        decreases b - a,
    {
        assert(v@.subrange(a as int, b as int).drop_last() == v@.subrange(a as int, b - 1));
        b -= 1;
    }
    let mut out: Vec<char> = Vec::new();
    let mut i: usize = a;
    while i < b
        invariant
            a <= i <= b <= n,
            n == v@.len(),
            out@ == v@.subrange(a as int, i as int),
        decreases b - i,
    {
        out.push(v[i]);
        i += 1;
    }
    out
}

/// Whether `pat` occurs in `s` at position `i`.
pub open spec fn matches_at(s: Seq<char>, pat: Seq<char>, i: int) -> bool {
    &&& 0 <= i
    &&& i + pat.len() <= s.len()
    &&& forall|j: int| 0 <= j < pat.len() ==> s[i + j] == pat[j]
}

/// What is left of `s` from position `i` on when every occurrence of `pat`
/// is taken out, scanning from the left without overlap.
pub open spec fn without_from(s: Seq<char>, pat: Seq<char>, i: int) -> Seq<char>
    decreases s.len() - i,
{
    if i < 0 || i >= s.len() {
        Seq::empty()
    } else if pat.len() > 0 && matches_at(s, pat, i) {
        without_from(s, pat, i + pat.len())
    } else {
        seq![s[i]] + without_from(s, pat, i + 1)
    }
}

/// `s` with every occurrence of `pat` taken out. An empty `pat` occurs nowhere.
pub open spec fn without_all(s: Seq<char>, pat: Seq<char>) -> Seq<char> {
    without_from(s, pat, 0)
}

/// What stands in front of a text does not change what is taken out of the
/// text itself.
pub proof fn lemma_without_shift(a: Seq<char>, t: Seq<char>, pat: Seq<char>, i: int)
    requires
        0 <= i,
    ensures
        without_from(a + t, pat, a.len() + i) == without_from(t, pat, i),
    decreases t.len() - i,
{
    let s = a + t;
    if i < t.len() {
        assert(s[a.len() + i] == t[i]);
        assert(matches_at(s, pat, a.len() + i) == matches_at(t, pat, i)) by {
            if matches_at(t, pat, i) {
                assert forall|j: int| 0 <= j < pat.len() implies s[a.len() + i + j] == pat[j] by {
                    assert(s[a.len() + i + j] == t[i + j]);
                }
            }
            if matches_at(s, pat, a.len() + i) {
                assert forall|j: int| 0 <= j < pat.len() implies t[i + j] == pat[j] by {
                    assert(s[a.len() + i + j] == t[i + j]);
                }
            }
        }
        if pat.len() > 0 && matches_at(t, pat, i) {
            lemma_without_shift(a, t, pat, i + pat.len());
        } else {
            lemma_without_shift(a, t, pat, i + 1);
        }
    }
}

/// Characters in front of a text that cannot start an occurrence of `pat`
/// stay where they are.
pub proof fn lemma_without_keeps_prefix(a: Seq<char>, t: Seq<char>, pat: Seq<char>, i: int)
    requires
        0 <= i <= a.len(),
        pat.len() > 0,
        forall|j: int| 0 <= j < a.len() ==> a[j] != pat[0],
    ensures
        without_from(a + t, pat, i) == a.subrange(i, a.len() as int) + without_from(t, pat, 0),
    decreases a.len() - i,
{
    let s = a + t;
    if i == a.len() {
        lemma_without_shift(a, t, pat, 0);
        assert(a.subrange(i, a.len() as int) + without_from(t, pat, 0) == without_from(t, pat, 0));
    } else {
        assert(s[i] == a[i]);
        assert(!matches_at(s, pat, i)) by {
            if matches_at(s, pat, i) {
                assert(s[i + 0] == pat[0]);
            }
        }
        lemma_without_keeps_prefix(a, t, pat, i + 1);
        assert(seq![s[i]] + (a.subrange(i + 1, a.len() as int) + without_from(t, pat, 0))
            == a.subrange(i, a.len() as int) + without_from(t, pat, 0));
    }
}

/// Characters behind a text that occur nowhere in `pat` stay where they
/// are, and change nothing of what is taken out before them.
pub proof fn lemma_without_keeps_suffix(t: Seq<char>, b: Seq<char>, pat: Seq<char>, i: int)
    requires
        0 <= i <= t.len(),
        pat.len() > 0,
        forall|j: int, k: int| 0 <= j < b.len() && 0 <= k < pat.len() ==> b[j] != pat[k],
    ensures
        without_from(t + b, pat, i) == without_from(t, pat, i) + b,
    decreases t.len() - i,
{
    let s = t + b;
    if i == t.len() {
        lemma_without_shift(t, b, pat, 0);
        lemma_without_keeps_prefix(b, Seq::empty(), pat, 0);
        assert(b + Seq::<char>::empty() == b);
        assert(b.subrange(0, b.len() as int) == b);
        assert(without_from(t, pat, i) + b == b);
    } else {
        assert(s[i] == t[i]);
        assert(matches_at(s, pat, i) == matches_at(t, pat, i)) by {
            if matches_at(s, pat, i) {
                if i + pat.len() > t.len() {
                    let j = t.len() - i;
                    assert(s[i + j] == b[0]);
                    assert(s[i + j] == pat[j]);
                }
                assert forall|j: int| 0 <= j < pat.len() implies t[i + j] == pat[j] by {
                    assert(s[i + j] == t[i + j]);
                }
            }
            if matches_at(t, pat, i) {
                assert forall|j: int| 0 <= j < pat.len() implies s[i + j] == pat[j] by {
                    assert(s[i + j] == t[i + j]);
                }
            }
        }
        if matches_at(t, pat, i) {
            lemma_without_keeps_suffix(t, b, pat, i + pat.len());
        } else {
            lemma_without_keeps_suffix(t, b, pat, i + 1);
            assert(seq![s[i]] + (without_from(t, pat, i + 1) + b) == (seq![t[i]] + without_from(
                t,
                pat,
                i + 1,
            )) + b);
        }
    }
}

/// Whether every character of `s` is white space.
pub open spec fn all_white_space(s: Seq<char>) -> bool {
    forall|i: int| 0 <= i < s.len() ==> is_white_space(#[trigger] s[i])
}

/// White space in front of a text is skipped with the white space that
/// the text begins with.
pub proof fn lemma_skip_leading_space(sp: Seq<char>, y: Seq<char>)
    requires
        all_white_space(sp),
    ensures
        skip_leading(sp + y) == skip_leading(y),
    decreases sp.len(),
{
    if sp.len() > 0 {
        assert((sp + y)[0] == sp[0]);
        assert((sp + y).drop_first() == sp.drop_first() + y);
        lemma_skip_leading_space(sp.drop_first(), y);
    } else {
        assert(sp + y == y);
    }
}

/// White space behind a text is skipped with the white space that the
/// text ends with.
pub proof fn lemma_skip_trailing_space(y: Seq<char>, sp: Seq<char>)
    requires
        all_white_space(sp),
    ensures
        skip_trailing(y + sp) == skip_trailing(y),
    decreases sp.len(),
{
    if sp.len() > 0 {
        assert((y + sp).last() == sp.last());
        assert((y + sp).drop_last() == y + sp.drop_last());
        lemma_skip_trailing_space(y, sp.drop_last());
    } else {
        assert(y + sp == y);
    }
}

/// White space round a text changes nothing of what trimming leaves.
pub proof fn lemma_trimmed_ignores_outer_space(before: Seq<char>, x: Seq<char>, after: Seq<char>)
    requires
        all_white_space(before),
        all_white_space(after),
    ensures
        trimmed(before + x + after) == trimmed(x),
    decreases x.len(),
{
    assert(before + x + after == before + (x + after));
    lemma_skip_leading_space(before, x + after);
    if x.len() == 0 {
        assert(x + after == after);
        lemma_skip_leading_space(after, Seq::empty());
        assert(after + Seq::<char>::empty() == after);
    } else if is_white_space(x[0]) {
        assert((x + after)[0] == x[0]);
        assert((x + after).drop_first() == x.drop_first() + after);
        assert(Seq::<char>::empty() + x.drop_first() + after == x.drop_first() + after);
        lemma_trimmed_ignores_outer_space(Seq::empty(), x.drop_first(), after);
    } else {
        assert((x + after)[0] == x[0]);
        lemma_skip_trailing_space(x, after);
    }
}

fn occurs_at(s: &Vec<char>, pat: &Vec<char>, i: usize) -> (b: bool)
    requires
        i <= s.len(),
    ensures
        b == matches_at(s@, pat@, i as int),
{
    if pat.len() > s.len() - i {
        return false;
    }
    let mut j: usize = 0;
    while j < pat.len()
        invariant
            j <= pat.len(),
            i + pat.len() <= s.len(),
            forall|k: int| 0 <= k < j ==> s@[i + k] == pat@[k],
        decreases pat.len() - j,
    {
        if s[i + j] != pat[j] {
            return false;
        }
        j += 1;
    }
    true
}

/// Takes every occurrence of `pat` out of `s`.
pub fn remove_all(s: &Vec<char>, pat: &Vec<char>) -> (r: Vec<char>)
    ensures
        r@ == without_all(s@, pat@),
{
    let mut out: Vec<char> = Vec::new();
    let mut i: usize = 0;
    while i < s.len()
        invariant
            i <= s.len(),
            without_all(s@, pat@) == out@ + without_from(s@, pat@, i as int),
        decreases s.len() - i,
    {
        if pat.len() > 0 && occurs_at(s, pat, i) {
            i += pat.len();
        } else {
            assert(out@.push(s@[i as int]) + without_from(s@, pat@, i + 1) == out@ + (seq![
                s@[i as int],
            ] + without_from(s@, pat@, i + 1)));
            out.push(s[i]);
            i += 1;
        }
    }
    out
}

/// The character of one decimal digit.
pub open spec fn digit_char(d: nat) -> char {
    if d == 0 {
        '0'
    } else if d == 1 {
        '1'
    } else if d == 2 {
        '2'
    } else if d == 3 {
        '3'
    } else if d == 4 {
        '4'
    } else if d == 5 {
        '5'
    } else if d == 6 {
        '6'
    } else if d == 7 {
        '7'
    } else if d == 8 {
        '8'
    } else {
        '9'
    }
}

/// The decimal numeral of `n`, without leading zeros.
pub open spec fn decimal_digits(n: nat) -> Seq<char>
    decreases n,
{
    if n < 10 {
        seq![digit_char(n)]
    } else {
        decimal_digits(n / 10).push(digit_char(n % 10))
    }
}

fn digit_of(d: usize) -> (c: char)
    requires
        d < 10,
    ensures
        c == digit_char(d as nat),
{
    if d == 0 {
        '0'
    } else if d == 1 {
        '1'
    } else if d == 2 {
        '2'
    } else if d == 3 {
        '3'
    } else if d == 4 {
        '4'
    } else if d == 5 {
        '5'
    } else if d == 6 {
        '6'
    } else if d == 7 {
        '7'
    } else if d == 8 {
        '8'
    } else {
        '9'
    }
}

/// Appends the decimal numeral of `n` to `out`.
pub fn push_decimal(out: &mut String, n: usize)
    ensures
        final(out)@ == old(out)@ + decimal_digits(n as nat),
    decreases n,
{
    if n >= 10 {
        push_decimal(out, n / 10);
    }
    push_char(out, digit_of(n % 10));
}

/// The decimal numeral of `n`, with zeros in front where it has fewer
/// than `width` digits.
pub open spec fn padded_digits(n: nat, width: nat) -> Seq<char>
    decreases n, width,
{
    if n < 10 && width <= 1 {
        seq![digit_char(n)]
    } else {
        padded_digits(
            n / 10,
            if width > 0 {
                (width - 1) as nat
            } else {
                0
            },
        ).push(digit_char(n % 10))
    }
}

/// Appends the decimal numeral of `n` to `out`, with zeros in front where
/// it has fewer than `width` digits.
pub fn push_padded(out: &mut String, n: usize, width: usize)
    ensures
        final(out)@ == old(out)@ + padded_digits(n as nat, width as nat),
    decreases n, width,
{
    if !(n < 10 && width <= 1) {
        let rest: usize = if width > 0 {
            width - 1
        } else {
            0
        };
        push_padded(out, n / 10, rest);
    }
    push_char(out, digit_of(n % 10));
}

} // verus!
