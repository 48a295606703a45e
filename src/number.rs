use vstd::prelude::*;
use crate::text::chars_of;

verus! {

pub open spec fn is_digit(c: char) -> bool {
    '0' <= c <= '9'
}

pub open spec fn all_digits(s: Seq<char>) -> bool {
    forall|i: int| 0 <= i < s.len() ==> is_digit(#[trigger] s[i])
}

pub open spec fn digit_value(c: char) -> nat {
    (c as u32 - '0' as u32) as nat
}

/// The number that a string of decimal digits denotes.
pub open spec fn digits_value(s: Seq<char>) -> nat
    decreases s.len(),
{
    if s.len() == 0 {
        0
    } else {
        digits_value(s.drop_last()) * 10 + digit_value(s.last())
    }
}

pub open spec fn is_sign(c: char) -> bool {
    c == '+' || c == '-'
}

/// The integer that `s` spells as std reads integers: one or more decimal
/// digits after an optional `+`, or, where `signed`, an optional `-`.
pub open spec fn int_of(s: Seq<char>, signed: bool) -> Option<int> {
    if s.len() > 0 && (s[0] == '+' || (signed && s[0] == '-')) {
        let d = s.skip(1);
        if d.len() > 0 && all_digits(d) {
            Some(if s[0] == '-' { -digits_value(d) } else { digits_value(d) as int })
        } else {
            None
        }
    } else if s.len() > 0 && all_digits(s) {
        Some(digits_value(s) as int)
    } else {
        None
    }
}

/// What `s.parse::<T>()` gives for an integer type `T` that holds `lo..=hi`.
pub open spec fn int_in(s: Seq<char>, signed: bool, lo: int, hi: int) -> Option<int> {
    match int_of(s, signed) {
        Some(v) => if lo <= v <= hi {
            Some(v)
        } else {
            None
        },
        None => None,
    }
}

proof fn lemma_digits_prefix(s: Seq<char>, k: int)
    requires
        0 <= k <= s.len(),
    ensures
        digits_value(s.take(k)) <= digits_value(s),
    decreases s.len(),
{
    if k < s.len() {
        lemma_digits_prefix(s.drop_last(), k);
        assert(s.drop_last().take(k) == s.take(k));
    } else {
        assert(s.take(k) == s);
    }
}

fn all_digits_in(s: &Vec<char>, lo: usize, hi: usize) -> (r: bool)
    requires
        lo <= hi <= s@.len(),
    ensures
        r == all_digits(s@.subrange(lo as int, hi as int)),
{
    let mut j = lo;
    while j < hi
        invariant
            lo <= j <= hi <= s@.len(),
            forall|i: int| lo <= i < j ==> is_digit(#[trigger] s@[i]),
        decreases hi - j,
    {
        if !('0' <= s[j] && s[j] <= '9') {
            assert(!is_digit(s@.subrange(lo as int, hi as int)[j - lo]));
            return false;
        }
        j = j + 1;
    }
    assert forall|i: int| 0 <= i < hi - lo implies is_digit(
        #[trigger] s@.subrange(lo as int, hi as int)[i],
    ) by {
        assert(s@.subrange(lo as int, hi as int)[i] == s@[lo + i]);
    }
    true
}

/// The value of the digits `s[lo..hi]`, where it is at most `limit`.
fn digits_upto(s: &Vec<char>, lo: usize, hi: usize, limit: u64) -> (r: Option<u64>)
    requires
        lo <= hi <= s@.len(),
        all_digits(s@.subrange(lo as int, hi as int)),
    ensures
        r is Some <==> digits_value(s@.subrange(lo as int, hi as int)) <= limit,
        r is Some ==> r->0 == digits_value(s@.subrange(lo as int, hi as int)),
{
    let ghost t = s@.subrange(lo as int, hi as int);
    let mut acc: u64 = 0;
    let mut j = lo;
    while j < hi
        invariant
            lo <= j <= hi <= s@.len(),
            t == s@.subrange(lo as int, hi as int),
            all_digits(t),
            acc == digits_value(t.take(j - lo)),
            acc <= limit,
        decreases hi - j,
    {
        assert(t.take(j - lo + 1).drop_last() == t.take(j - lo));
        assert(is_digit(t[j - lo]));
        let d = (s[j] as u32 - '0' as u32) as u64;
        let next: u128 = acc as u128 * 10 + d as u128;
        if next > limit as u128 {
            proof {
                lemma_digits_prefix(t, j - lo + 1);
            }
            return None;
        }
        acc = next as u64;
        j = j + 1;
    }
    assert(t.take(hi - lo) == t);
    Some(acc)
}

/// Reads `s[lo..hi]` as std reads an integer of the range `min..=max`
/// (`signed` where a leading `-` is allowed).
fn int_range(s: &Vec<char>, lo: usize, hi: usize, signed: bool, min: i128, max: i128) -> (r: Option<
    i128,
>)
    requires
        lo <= hi <= s@.len(),
        -0x8000_0000_0000_0000 <= min <= 0 < max <= 0xffff_ffff_ffff_ffff,
    ensures
        r is Some <==> int_in(s@.subrange(lo as int, hi as int), signed, min as int, max as int) is Some,
        r is Some ==> r->0 == int_in(s@.subrange(lo as int, hi as int), signed, min as int, max as int)->0,
{
    let ghost t = s@.subrange(lo as int, hi as int);
    if lo == hi {
        return None;
    }
    let c = s[lo];
    assert(t[0] == c);
    if c == '+' || (signed && c == '-') {
        assert(t.skip(1) == s@.subrange(lo + 1, hi as int));
        if lo + 1 == hi || !all_digits_in(s, lo + 1, hi) {
            return None;
        }
        if c == '-' {
            let m = digits_upto(s, lo + 1, hi, (-min) as u64);
            match m {
                Some(v) => Some(-(v as i128)),
                None => None,
            }
        } else {
            let m = digits_upto(s, lo + 1, hi, max as u64);
            match m {
                Some(v) => Some(v as i128),
                None => None,
            }
        }
    } else {
        if !all_digits_in(s, lo, hi) {
            return None;
        }
        let m = digits_upto(s, lo, hi, max as u64);
        match m {
            Some(v) => Some(v as i128),
            None => None,
        }
    }
}

/// `s[lo..hi].parse::<usize>().ok()`.
pub fn parse_usize(s: &Vec<char>, lo: usize, hi: usize) -> (r: Option<usize>)
    requires
        lo <= hi <= s@.len(),
    ensures
        r is Some <==> int_in(s@.subrange(lo as int, hi as int), false, 0, usize::MAX as int) is Some,
        r is Some ==> r->0 == int_in(s@.subrange(lo as int, hi as int), false, 0, usize::MAX as int)->0,
{
    match int_range(s, lo, hi, false, 0, usize::MAX as i128) {
        Some(v) => Some(v as usize),
        None => None,
    }
}

/// `s[lo..hi].parse::<i64>().ok()`.
pub fn parse_i64(s: &Vec<char>, lo: usize, hi: usize) -> (r: Option<i64>)
    requires
        lo <= hi <= s@.len(),
    ensures
        r is Some <==> int_in(s@.subrange(lo as int, hi as int), true, i64::MIN as int, i64::MAX as int) is Some,
        r is Some ==> r->0 == int_in(s@.subrange(lo as int, hi as int), true, i64::MIN as int, i64::MAX as int)->0,
{
    match int_range(s, lo, hi, true, i64::MIN as i128, i64::MAX as i128) {
        Some(v) => Some(v as i64),
        None => None,
    }
}

/// `s[lo..hi].parse::<i32>().ok()`.
pub fn parse_i32(s: &Vec<char>, lo: usize, hi: usize) -> (r: Option<i32>)
    requires
        lo <= hi <= s@.len(),
    ensures
        r is Some <==> int_in(s@.subrange(lo as int, hi as int), true, i32::MIN as int, i32::MAX as int) is Some,
        r is Some ==> r->0 == int_in(s@.subrange(lo as int, hi as int), true, i32::MIN as int, i32::MAX as int)->0,
{
    match int_range(s, lo, hi, true, i32::MIN as i128, i32::MAX as i128) {
        Some(v) => Some(v as i32),
        None => None,
    }
}

} // verus!

verus! {

pub open spec fn is_exp_mark(c: char) -> bool {
    c == 'e' || c == 'E'
}

/// `s` is the word `w` (given in lower case) in any mix of ASCII cases.
pub open spec fn word_is(s: Seq<char>, w: Seq<char>) -> bool {
    s.len() == w.len() && forall|i: int|
        0 <= i < s.len() ==> (#[trigger] s[i] == w[i] || s[i] as u32 + 32 == w[i] as u32)
}

/// `Digit+ | Digit+ '.' Digit* | Digit* '.' Digit+`
pub open spec fn is_mantissa(s: Seq<char>) -> bool {
    (s.len() > 0 && all_digits(s)) || (s.len() >= 2 && exists|d: int|
        0 <= d < s.len() && s[d] == '.' && all_digits(s.take(d)) && all_digits(
            #[trigger] s.skip(d + 1),
        ))
}

/// `Sign? Digit+`
pub open spec fn is_exponent(s: Seq<char>) -> bool {
    (s.len() > 0 && all_digits(s)) || (s.len() > 1 && is_sign(s[0]) && all_digits(s.skip(1)))
}

/// `Mantissa ('e' Exponent)?`, the mark in either case.
pub open spec fn is_decimal(s: Seq<char>) -> bool {
    is_mantissa(s) || exists|k: int|
        0 <= k < s.len() && is_exp_mark(s[k]) && is_mantissa(s.take(k)) && is_exponent(
            #[trigger] s.skip(k + 1),
        )
}

/// The text that std's `f64::from_str` accepts: an optional sign, then `inf`,
/// `infinity` or `nan` in any case, or a decimal number.
pub open spec fn is_float_literal(s: Seq<char>) -> bool {
    let b = if s.len() > 0 && is_sign(s[0]) {
        s.skip(1)
    } else {
        s
    };
    word_is(b, seq!['i', 'n', 'f']) || word_is(b, seq!['i', 'n', 'f', 'i', 'n', 'i', 't', 'y'])
        || word_is(b, seq!['n', 'a', 'n']) || is_decimal(b)
}

proof fn lemma_mantissa_chars(s: Seq<char>)
    requires
        is_mantissa(s),
    ensures
        forall|i: int| 0 <= i < s.len() ==> is_digit(#[trigger] s[i]) || s[i] == '.',
{
    if !(s.len() > 0 && all_digits(s)) {
        let d = choose|d: int|
            0 <= d < s.len() && s[d] == '.' && all_digits(s.take(d)) && all_digits(
                #[trigger] s.skip(d + 1),
            );
        assert forall|i: int| 0 <= i < s.len() implies is_digit(#[trigger] s[i]) || s[i]
            == '.' by {
            if i < d {
                assert(s.take(d)[i] == s[i]);
            } else if i > d {
                assert(s.skip(d + 1)[i - d - 1] == s[i]);
            }
        }
    }
}

fn mantissa_in(s: &Vec<char>, lo: usize, hi: usize) -> (r: bool)
    requires
        lo <= hi <= s@.len(),
    ensures
        r == is_mantissa(s@.subrange(lo as int, hi as int)),
{
    let ghost t = s@.subrange(lo as int, hi as int);
    let mut dot: Option<usize> = None;
    let mut j = lo;
    while j < hi
        invariant
            lo <= j <= hi <= s@.len(),
            t == s@.subrange(lo as int, hi as int),
            forall|i: int| lo <= i < j && s@[i] != '.' ==> is_digit(#[trigger] s@[i]),
            dot is None ==> forall|i: int| lo <= i < j ==> s@[i] != '.',
            dot is Some ==> lo <= dot->0 < j && s@[dot->0 as int] == '.' && forall|i: int|
                lo <= i < j && i != dot->0 ==> s@[i] != '.',
        decreases hi - j,
    {
        let c = s[j];
        if c == '.' {
            if dot.is_some() {
                proof {
                    let a = dot->0 - lo;
                    let b = j - lo;
                    assert(t[a] == '.' && t[b] == '.');
                    if is_mantissa(t) {
                        lemma_mantissa_chars(t);
                        assert(!all_digits(t)) by {
                            assert(!is_digit(t[b]));
                        }
                        let d = choose|d: int|
                            0 <= d < t.len() && t[d] == '.' && all_digits(t.take(d)) && all_digits(
                                #[trigger] t.skip(d + 1),
                            );
                        if d != a {
                            if a < d {
                                assert(t.take(d)[a] == t[a]);
                            } else {
                                assert(t.skip(d + 1)[a - d - 1] == t[a]);
                            }
                        } else {
                            assert(t.skip(d + 1)[b - d - 1] == t[b]);
                        }
                    }
                }
                return false;
            }
            dot = Some(j);
        } else if !('0' <= c && c <= '9') {
            proof {
                let b = j - lo;
                assert(t[b] == c);
                if is_mantissa(t) {
                    lemma_mantissa_chars(t);
                }
            }
            return false;
        }
        j = j + 1;
    }
    match dot {
        None => {
            assert(all_digits(t)) by {
                assert forall|i: int| 0 <= i < t.len() implies is_digit(#[trigger] t[i]) by {
                    assert(t[i] == s@[lo + i]);
                }
            }
            hi > lo
        },
        Some(d) => {
            let ghost k = d - lo;
            assert(all_digits(t.take(k))) by {
                assert forall|i: int| 0 <= i < k implies is_digit(#[trigger] t.take(k)[i]) by {
                    assert(t.take(k)[i] == s@[lo + i]);
                }
            }
            assert(all_digits(t.skip(k + 1))) by {
                assert forall|i: int| 0 <= i < t.len() - k - 1 implies is_digit(
                    #[trigger] t.skip(k + 1)[i],
                ) by {
                    assert(t.skip(k + 1)[i] == s@[lo + k + 1 + i]);
                }
            }
            assert(!all_digits(t)) by {
                assert(!is_digit(t[k]));
            }
            hi - lo >= 2
        },
    }
}

fn exponent_in(s: &Vec<char>, lo: usize, hi: usize) -> (r: bool)
    requires
        lo <= hi <= s@.len(),
    ensures
        r == is_exponent(s@.subrange(lo as int, hi as int)),
{
    let ghost t = s@.subrange(lo as int, hi as int);
    if lo == hi {
        return false;
    }
    if s[lo] == '+' || s[lo] == '-' {
        assert(t.skip(1) == s@.subrange(lo + 1, hi as int));
        assert(!is_digit(t[0]));
        hi - lo > 1 && all_digits_in(s, lo + 1, hi)
    } else {
        all_digits_in(s, lo, hi)
    }
}

fn decimal_in(s: &Vec<char>, lo: usize, hi: usize) -> (r: bool)
    requires
        lo <= hi <= s@.len(),
    ensures
        r == is_decimal(s@.subrange(lo as int, hi as int)),
{
    let ghost t = s@.subrange(lo as int, hi as int);
    let mut k = lo;
    while k < hi && !(s[k] == 'e' || s[k] == 'E')
        invariant
            lo <= k <= hi <= s@.len(),
            forall|i: int| lo <= i < k ==> !is_exp_mark(#[trigger] s@[i]),
        decreases hi - k,
    {
        k = k + 1;
    }
    if k == hi {
        proof {
            assert forall|m: int| 0 <= m < t.len() implies !is_exp_mark(#[trigger] t[m]) by {
                assert(t[m] == s@[lo + m]);
            }
        }
        return mantissa_in(s, lo, hi);
    }
    let ghost m = k - lo;
    assert(t.take(m) == s@.subrange(lo as int, k as int));
    assert(t.skip(m + 1) == s@.subrange(k + 1, hi as int));
    assert(is_exp_mark(t[m]));
    let r = mantissa_in(s, lo, k) && exponent_in(s, k + 1, hi);
    proof {
        if is_mantissa(t) {
            lemma_mantissa_chars(t);
            assert(false);
        }
        if !r {
            assert forall|k2: int|
                0 <= k2 < t.len() && is_exp_mark(t[k2]) && is_mantissa(t.take(k2)) implies !is_exponent(
                #[trigger] t.skip(k2 + 1),
            ) by {
                if k2 != m {
                    if k2 < m {
                        assert(t[k2] == s@[lo + k2]);
                    } else {
                        lemma_mantissa_chars(t.take(k2));
                        assert(t.take(k2)[m] == t[m]);
                    }
                }
            }
        }
    }
    r
}

fn word_in(s: &Vec<char>, lo: usize, hi: usize, w: &str) -> (r: bool)
    requires
        lo <= hi <= s@.len(),
        forall|i: int| 0 <= i < w@.len() ==> 'a' <= #[trigger] w@[i] <= 'z',
    ensures
        r == word_is(s@.subrange(lo as int, hi as int), w@),
{
    let n = w.unicode_len();
    if hi - lo != n {
        return false;
    }
    let mut i: usize = 0;
    while i < n
        invariant
            n == w@.len(),
            hi - lo == n,
            lo <= hi <= s@.len(),
            i <= n,
            forall|j: int| 0 <= j < w@.len() ==> 'a' <= #[trigger] w@[j] <= 'z',
            forall|j: int|
                0 <= j < i ==> (#[trigger] s@[lo + j] == w@[j] || s@[lo + j] as u32 + 32 == w@[j] as u32),
        decreases n - i,
    {
        let c = s[lo + i];
        let l = w.get_char(i);
        if !(c == l || c as u32 == l as u32 - 32) {
            assert(s@.subrange(lo as int, hi as int)[i as int] == c);
            return false;
        }
        i = i + 1;
    }
    assert forall|j: int| 0 <= j < n implies (#[trigger] s@.subrange(lo as int, hi as int)[j]
        == w@[j] || s@.subrange(lo as int, hi as int)[j] as u32 + 32 == w@[j] as u32) by {
        assert(s@.subrange(lo as int, hi as int)[j] == s@[lo + j]);
    }
    true
}

/// Whether `s[lo..hi]` is text that std reads as an `f64`.
pub fn float_literal_in(s: &Vec<char>, lo: usize, hi: usize) -> (r: bool)
    requires
        lo <= hi <= s@.len(),
    ensures
        r == is_float_literal(s@.subrange(lo as int, hi as int)),
{
    let ghost t = s@.subrange(lo as int, hi as int);
    let mut b = lo;
    if lo < hi && (s[lo] == '+' || s[lo] == '-') {
        assert(t.skip(1) == s@.subrange(lo + 1, hi as int));
        b = lo + 1;
    } else {
        assert(t == s@.subrange(lo as int, hi as int));
    }
    proof {
        reveal_strlit("inf");
        reveal_strlit("infinity");
        reveal_strlit("nan");
        assert("inf"@ == seq!['i', 'n', 'f']);
        assert("infinity"@ == seq!['i', 'n', 'f', 'i', 'n', 'i', 't', 'y']);
        assert("nan"@ == seq!['n', 'a', 'n']);
    }
    word_in(s, b, hi, "inf") || word_in(s, b, hi, "infinity") || word_in(s, b, hi, "nan")
        || decimal_in(s, b, hi)
}

/// A floating-point value, held as the text it was written in. The text is
/// always one that std reads as an `f64`; turning it into one is left to the
/// caller.
#[derive(Debug)]
pub struct FloatText {
    text: String,
}

impl View for FloatText {
    type V = Seq<char>;

    closed spec fn view(&self) -> Seq<char> {
        self.text@
    }
}

impl FloatText {
    #[verifier::type_invariant]
    closed spec fn is_float(self) -> bool {
        is_float_literal(self.text@)
    }

    /// The text of the value.
    pub fn as_str(&self) -> (r: &str)
        ensures
            r@ == self@,
            is_float_literal(r@),
    {
        proof {
            use_type_invariant(self);
        }
        self.text.as_str()
    }

    /// `s.parse::<f64>()`, keeping the text: present exactly where std would
    /// read `s` as a float.
    pub fn parse(s: &str) -> (r: Option<FloatText>)
        ensures
            r is Some <==> is_float_literal(s@),
            r is Some ==> r->0@ == s@,
    {
        let cs = chars_of(s);
        assert(cs@.subrange(0, cs@.len() as int) == s@);
        if float_literal_in(&cs, 0, cs.len()) {
            Some(FloatText { text: s.to_owned() })
        } else {
            None
        }
    }
}

} // verus!
