//! Decimal and hexadecimal rendering and parsing of integers, as std's
//! `Display`, `{:0N}`, `{:0NX}` and `str::parse` do it.
use vstd::prelude::*;

verus! {

pub open spec fn digit_char(d: int) -> char
    recommends
        0 <= d < 16,
{
    if d < 10 {
        (('0' as int) + d) as char
    } else {
        (('A' as int) + d - 10) as char
    }
}

/// Digits of `n` in `base`, most significant first, without leading
/// zeros ("0" for zero). Hex digits are upper-case.
pub open spec fn digits(n: nat, base: nat) -> Seq<char>
    recommends
        2 <= base <= 16,
    decreases n,
{
    if base < 2 || n < base {
        seq![digit_char(n as int)]
    } else {
        proof {
            lemma_div_shrinks(n, base);
        }
        digits(n / base, base).push(digit_char((n % base) as int))
    }
}

pub proof fn lemma_div_shrinks(n: nat, base: nat)
    requires
        base >= 2,
        n >= base,
    ensures
        n / base < n,
{
    assert(n / base < n) by (nonlinear_arith)
        requires
            base >= 2,
            n >= base,
    ;
}

pub open spec fn dec(n: nat) -> Seq<char> {
    digits(n, 10)
}

/// Decimal digits are ASCII digits.
pub proof fn lemma_dec_is_digits(n: nat)
    ensures
        all_digits(dec(n)),
        dec(n).len() > 0,
    decreases n,
{
    if n >= 10 {
        lemma_div_shrinks(n, 10);
        lemma_dec_is_digits(n / 10);
        let d = dec(n / 10);
        assert(dec(n) == d.push(digit_char((n % 10) as int)));
        assert forall|i: int| 0 <= i < dec(n).len() implies #[trigger] is_digit(dec(n)[i]) by {
            if i < d.len() {
                assert(dec(n)[i] == d[i]);
            }
        }
    }
}

proof fn lemma_digit_char_value(d: int)
    requires
        0 <= d < 10,
    ensures
        digit_value(digit_char(d)) == d,
{
    assert((('0' as int) + d) as char as int == ('0' as int) + d);
}

/// The digits of `n` denote `n`, so different numbers have different
/// decimal texts.
pub proof fn lemma_dec_value(n: nat)
    ensures
        digits_value(dec(n)) == n,
    decreases n,
{
    if n < 10 {
        lemma_digit_char_value(n as int);
        lemma_digits_value_push(Seq::<char>::empty(), digit_char(n as int));
        assert(Seq::<char>::empty().push(digit_char(n as int)) =~= seq![digit_char(n as int)]);
    } else {
        lemma_div_shrinks(n, 10);
        lemma_dec_value(n / 10);
        let d = dec(n / 10);
        let c = digit_char((n % 10) as int);
        lemma_digit_char_value((n % 10) as int);
        assert(dec(n) == d.push(c));
        lemma_digits_value_push(d, c);
        assert(n == (n / 10) * 10 + n % 10) by (nonlinear_arith);
    }
}

/// Signed decimal: a '-' before the digits of the magnitude.
pub open spec fn dec_signed(n: int) -> Seq<char> {
    if n < 0 {
        seq!['-'] + dec((-n) as nat)
    } else {
        dec(n as nat)
    }
}

/// `s` left-padded with '0' to at least `width` characters.
pub open spec fn zero_pad(s: Seq<char>, width: nat) -> Seq<char> {
    if s.len() >= width {
        s
    } else {
        Seq::new((width - s.len()) as nat, |_i: int| '0') + s
    }
}

pub open spec fn digit_value(c: char) -> int {
    (c as int) - ('0' as int)
}

pub open spec fn is_digit(c: char) -> bool {
    '0' <= c && c <= '9'
}

pub open spec fn all_digits(s: Seq<char>) -> bool {
    forall|i: int| 0 <= i < s.len() ==> #[trigger] is_digit(s[i])
}

/// Value of a run of decimal digits.
pub open spec fn digits_value(s: Seq<char>) -> int
    decreases s.len(),
{
    if s.len() == 0 {
        0
    } else {
        digits_value(s.drop_last()) * 10 + digit_value(s.last())
    }
}

/// The integer a text denotes under std's integer grammar: an optional
/// sign ('-' only when `signed`) followed by one or more ASCII digits.
pub open spec fn parsed_int(s: Seq<char>, signed: bool) -> Option<int> {
    if s.len() > 0 && s[0] == '+' && s.len() > 1 && all_digits(s.skip(1)) {
        Some(digits_value(s.skip(1)))
    } else if signed && s.len() > 1 && s[0] == '-' && all_digits(s.skip(1)) {
        Some(-digits_value(s.skip(1)))
    } else if s.len() > 0 && all_digits(s) {
        Some(digits_value(s))
    } else {
        None
    }
}

fn digit_to_char(d: u64) -> (c: char)
    requires
        d < 16,
    ensures
        c == digit_char(d as int),
{
    let v: u8 = if d < 10 {
        (48 + d) as u8
    } else {
        (55 + d) as u8
    };
    v as char
}

/// Digits of `n` in `base` (2..=16).
pub fn u64_digits(n: u64, base: u64) -> (v: Vec<char>)
    requires
        2 <= base <= 16,
    ensures
        v@ == digits(n as nat, base as nat),
    decreases n,
{
    if n < base {
        let mut v = Vec::new();
        v.push(digit_to_char(n));
        v
    } else {
        proof {
            lemma_div_shrinks(n as nat, base as nat);
        }
        let mut v = u64_digits(n / base, base);
        v.push(digit_to_char(n % base));
        v
    }
}

/// Decimal text of `n` (std `Display` for `u64`).
pub fn u64_to_dec(n: u64) -> (v: Vec<char>)
    ensures
        v@ == dec(n as nat),
{
    u64_digits(n, 10)
}

/// Decimal text of `n` (std `Display` for `i64`).
pub fn i64_to_dec(n: i64) -> (v: Vec<char>)
    ensures
        v@ == dec_signed(n as int),
{
    if n < 0 {
        let mag: u64 = if n == i64::MIN {
            9223372036854775808u64
        } else {
            (-n) as u64
        };
        let d = u64_to_dec(mag);
        let mut v = Vec::new();
        v.push('-');
        let mut i: usize = 0;
        while i < d.len()
            invariant
                i <= d@.len(),
                v@ == seq!['-'] + d@.take(i as int),
            decreases d@.len() - i,
        {
            v.push(d[i]);
            assert(d@.take(i + 1) == d@.take(i as int).push(d@[i as int]));
            i += 1;
        }
        assert(d@.take(d@.len() as int) == d@);
        v
    } else {
        u64_to_dec(n as u64)
    }
}

/// Decimal text of a handle value (std `Display` for `isize`).
pub fn isize_to_dec(n: isize) -> (v: Vec<char>)
    ensures
        v@ == dec_signed(n as int),
{
    i64_to_dec(n as i64)
}

/// `s` left-padded with '0' to `width` characters.
pub fn pad_zeros(s: &[char], width: usize) -> (v: Vec<char>)
    ensures
        v@ == zero_pad(s@, width as nat),
{
    let mut v: Vec<char> = Vec::new();
    if s.len() < width {
        let n = width - s.len();
        let mut i: usize = 0;
        while i < n
            invariant
                i <= n,
                v@ == Seq::new(i as nat, |_i: int| '0'),
            decreases n - i,
        {
            v.push('0');
            assert(v@ =~= Seq::new((i + 1) as nat, |_i: int| '0'));
            i += 1;
        }
    }
    let ghost pre = v@;
    let mut j: usize = 0;
    while j < s.len()
        invariant
            j <= s@.len(),
            v@ == pre + s@.take(j as int),
        decreases s@.len() - j,
    {
        v.push(s[j]);
        assert(s@.take(j + 1) == s@.take(j as int).push(s@[j as int]));
        assert((pre + s@.take(j as int)).push(s@[j as int]) =~= pre + s@.take(j + 1));
        j += 1;
    }
    assert(s@.take(s@.len() as int) == s@);
    assert(v@ =~= zero_pad(s@, width as nat));
    v
}

/// `{:0width$}` for an unsigned number.
pub fn dec_padded(n: u64, width: usize) -> (v: Vec<char>)
    ensures
        v@ == zero_pad(dec(n as nat), width as nat),
{
    let d = u64_to_dec(n);
    pad_zeros(d.as_slice(), width)
}

/// `{:0width$X}` for an unsigned number.
pub fn hex_padded(n: u64, width: usize) -> (v: Vec<char>)
    ensures
        v@ == zero_pad(digits(n as nat, 16), width as nat),
{
    let d = u64_digits(n, 16);
    pad_zeros(d.as_slice(), width)
}

proof fn lemma_digits_value_push(s: Seq<char>, c: char)
    ensures
        digits_value(s.push(c)) == digits_value(s) * 10 + digit_value(c),
{
    assert(s.push(c).drop_last() =~= s);
}

/// Accumulate a run of digits; `None` once the value exceeds `limit`.
fn digits_upto(s: &[char], from: usize, limit: u64) -> (r: Option<u64>)
    requires
        from <= s@.len(),
        all_digits(s@.skip(from as int)),
    ensures
        match r {
            Some(v) => v == digits_value(s@.skip(from as int)) && v <= limit,
            None => digits_value(s@.skip(from as int)) > limit,
        },
{
    let mut acc: u64 = 0;
    let mut i: usize = from;
    while i < s.len()
        invariant
            from <= i <= s@.len(),
            all_digits(s@.skip(from as int)),
            acc == digits_value(s@.subrange(from as int, i as int)),
            acc <= limit,
        decreases s@.len() - i,
    {
        assert(s@.skip(from as int)[i - from] == s@[i as int]);
        assert(is_digit(s@.skip(from as int)[i - from]));
        let d: u64 = (s[i] as u32 - 48) as u64;
        assert(s@.subrange(from as int, i + 1) =~= s@.subrange(from as int, i as int).push(s@[i as int]));
        proof { lemma_digits_value_push(s@.subrange(from as int, i as int), s@[i as int]); }
        if d > limit {
            proof {
                lemma_digits_value_mono(s@.skip(from as int), (i + 1 - from) as int);
                assert(s@.skip(from as int).take((i + 1 - from) as int) =~= s@.subrange(from as int, i + 1));
                lemma_digits_value_nonneg(s@.subrange(from as int, i as int));
            }
            return None;
        }
        if acc > (limit - d) / 10 {
            proof {
                lemma_digits_value_mono(s@.skip(from as int), (i + 1 - from) as int);
                assert(s@.skip(from as int).take((i + 1 - from) as int) =~= s@.subrange(from as int, i + 1));
                assert(acc * 10 + d > limit) by (nonlinear_arith)
                    requires acc > (limit - d) / 10, d <= 9, d <= limit;
            }
            return None;
        }
        assert(acc * 10 + d <= limit) by (nonlinear_arith)
            requires acc <= (limit - d) / 10, d <= limit;
        acc = acc * 10 + d;
        i += 1;
    }
    assert(s@.subrange(from as int, s@.len() as int) =~= s@.skip(from as int));
    Some(acc)
}

proof fn lemma_digits_value_nonneg(s: Seq<char>)
    requires
        all_digits(s),
    ensures
        digits_value(s) >= 0,
    decreases s.len(),
{
    if s.len() > 0 {
        assert(all_digits(s.drop_last()));
        assert(is_digit(s[s.len() - 1]));
        lemma_digits_value_nonneg(s.drop_last());
    }
}

/// A prefix's value never exceeds the whole run's value.
proof fn lemma_digits_value_mono(s: Seq<char>, k: int)
    requires
        0 <= k <= s.len(),
        all_digits(s),
    ensures
        digits_value(s.take(k)) <= digits_value(s),
    decreases s.len() - k,
{
    if k < s.len() {
        lemma_digits_value_mono(s, k + 1);
        assert(s.take(k + 1) =~= s.take(k).push(s[k]));
        lemma_digits_value_push(s.take(k), s[k]);
        assert(is_digit(s[k]));
        assert(all_digits(s.take(k)));
        lemma_digits_value_nonneg(s.take(k));
    } else {
        assert(s.take(k) =~= s);
    }
}

fn chars_all_digits(s: &[char], from: usize) -> (b: bool)
    requires
        from <= s@.len(),
    ensures
        b == all_digits(s@.skip(from as int)),
{
    let mut i: usize = from;
    while i < s.len()
        invariant
            from <= i <= s@.len(),
            forall|j: int| from <= j < i ==> is_digit(s@[j]),
        decreases s@.len() - i,
    {
        if !(s[i] >= '0' && s[i] <= '9') {
            assert(!is_digit(s@.skip(from as int)[i - from]));
            return false;
        }
        i += 1;
    }
    assert forall|j: int| 0 <= j < s@.skip(from as int).len() implies #[trigger] is_digit(
        s@.skip(from as int)[j],
    ) by {
        assert(s@.skip(from as int)[j] == s@[from + j]);
    }
    true
}

/// std `str::parse::<isize>()` on the characters of a text.
pub fn parse_isize(s: &[char]) -> (r: Option<isize>)
    ensures
        match parsed_int(s@, true) {
            Some(v) => if isize::MIN <= v <= isize::MAX {
                r == Some(v as isize)
            } else {
                r is None
            },
            None => r is None,
        },
{
    if s.len() == 0 {
        return None;
    }
    let neg = s[0] == '-';
    let from: usize = if s[0] == '+' || s[0] == '-' {
        1
    } else {
        0
    };
    if from == 1 && s.len() == 1 {
        assert(!is_digit(s@[0]));
        return None;
    }
    if !chars_all_digits(s, from) {
        proof {
            if from == 0 {
                assert(s@.skip(0) =~= s@);
            }
        }
        return None;
    }
    proof {
        if from == 0 {
            assert(s@.skip(0) =~= s@);
        }
    }
    let limit: u64 = if neg {
        (isize::MAX as u64) + 1
    } else {
        isize::MAX as u64
    };
    match digits_upto(s, from, limit) {
        Some(m) => {
            if neg {
                if m == (isize::MAX as u64) + 1 {
                    Some(isize::MIN)
                } else {
                    Some(-(m as isize))
                }
            } else {
                Some(m as isize)
            }
        },
        None => None,
    }
}

/// std `str::parse::<usize>()` on the characters of a text.
pub fn parse_usize(s: &[char]) -> (r: Option<usize>)
    ensures
        match parsed_int(s@, false) {
            Some(v) => if v <= usize::MAX {
                r == Some(v as usize)
            } else {
                r is None
            },
            None => r is None,
        },
{
    if s.len() == 0 {
        return None;
    }
    let from: usize = if s[0] == '+' {
        1
    } else {
        0
    };
    if from == 1 && s.len() == 1 {
        assert(!is_digit(s@[0]));
        return None;
    }
    if !chars_all_digits(s, from) {
        proof {
            if from == 0 {
                assert(s@.skip(0) =~= s@);
            }
        }
        return None;
    }
    proof {
        if from == 0 {
            assert(s@.skip(0) =~= s@);
        }
    }
    match digits_upto(s, from, usize::MAX as u64) {
        Some(m) => Some(m as usize),
        None => None,
    }
}

} // verus!
