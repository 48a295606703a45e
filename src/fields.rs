use vstd::prelude::*;
use crate::number::{int_in, is_float_literal, FloatText};
use vstd::string::*;
use crate::text::{lemma_split_step, lookup, range_is, split_on, trim_range, trimmed};

verus! {

/// `k` is the position of the first `c` in `s`.
pub open spec fn is_first(s: Seq<char>, c: char, k: int) -> bool {
    0 <= k < s.len() && s[k] == c && forall|j: int| 0 <= j < k ==> s[j] != c
}

/// A field cut at its first `=` into a key and a value, both trimmed; a field
/// without `=` is all key.
pub open spec fn key_value(f: Seq<char>) -> (Seq<char>, Seq<char>) {
    if exists|k: int| is_first(f, '=', k) {
        let k = choose|k: int| is_first(f, '=', k);
        (trimmed(f.take(k)), trimmed(f.skip(k + 1)))
    } else {
        (trimmed(f), Seq::empty())
    }
}

/// The key-value pairs of `fields`, in order, leaving out those whose key or
/// value is empty.
pub open spec fn kept(fields: Seq<Seq<char>>) -> Seq<(Seq<char>, Seq<char>)>
    decreases fields.len(),
{
    if fields.len() == 0 {
        Seq::empty()
    } else {
        let prev = kept(fields.drop_last());
        let p = key_value(fields.last());
        if p.0.len() > 0 && p.1.len() > 0 {
            prev.push(p)
        } else {
            prev
        }
    }
}

/// The `key=value` properties of an SMS text: the fields between `;`.
pub open spec fn properties(s: Seq<char>) -> Seq<(Seq<char>, Seq<char>)> {
    kept(split_on(s, ';'))
}

/// Where a trimmed key and its trimmed value stand in a text.
#[derive(Debug, Clone, Copy)]
pub struct Field {
    pub key_lo: usize,
    pub key_hi: usize,
    pub val_lo: usize,
    pub val_hi: usize,
}

pub open spec fn field_in(s: Seq<char>, f: Field) -> bool {
    f.key_lo <= f.key_hi <= s.len() && f.val_lo <= f.val_hi <= s.len()
}

pub open spec fn field_view(s: Seq<char>, f: Field) -> (Seq<char>, Seq<char>) {
    (s.subrange(f.key_lo as int, f.key_hi as int), s.subrange(f.val_lo as int, f.val_hi as int))
}

pub open spec fn fields_view(s: Seq<char>, v: Seq<Field>) -> Seq<(Seq<char>, Seq<char>)> {
    v.map_values(|f: Field| field_view(s, f))
}

pub open spec fn fields_in(s: Seq<char>, v: Seq<Field>) -> bool {
    forall|i: int| 0 <= i < v.len() ==> field_in(s, #[trigger] v[i])
}

/// The field `s[lo..hi]`, where its key and value are both non-empty.
fn field_at(s: &Vec<char>, lo: usize, hi: usize) -> (r: Option<Field>)
    requires
        lo <= hi <= s@.len(),
    ensures
        ({
            let p = key_value(s@.subrange(lo as int, hi as int));
            match r {
                Some(f) => field_in(s@, f) && field_view(s@, f) == p && p.0.len() > 0 && p.1.len()
                    > 0,
                None => !(p.0.len() > 0 && p.1.len() > 0),
            }
        }),
{
    let ghost t = s@.subrange(lo as int, hi as int);
    let mut k = lo;
    while k < hi && s[k] != '='
        invariant
            lo <= k <= hi <= s@.len(),
            forall|j: int| lo <= j < k ==> s@[j] != '=',
        decreases hi - k,
    {
        k = k + 1;
    }
    if k == hi {
        assert(!exists|k2: int| is_first(t, '=', k2)) by {
            assert forall|k2: int| 0 <= k2 < t.len() implies t[k2] != '=' by {
                assert(t[k2] == s@[lo + k2]);
            }
        }
        return None;
    }
    let ghost m = k - lo;
    assert(is_first(t, '=', m)) by {
        assert forall|j: int| 0 <= j < m implies t[j] != '=' by {
            assert(t[j] == s@[lo + j]);
        }
    }
    assert(forall|k2: int| is_first(t, '=', k2) ==> k2 == m);
    assert(t.take(m) == s@.subrange(lo as int, k as int));
    assert(t.skip(m + 1) == s@.subrange(k + 1, hi as int));
    let (a, b) = trim_range(s, lo, k);
    let (c, d) = trim_range(s, k + 1, hi);
    if a < b && c < d {
        Some(Field { key_lo: a, key_hi: b, val_lo: c, val_hi: d })
    } else {
        None
    }
}

/// The properties of an SMS text, as places in its characters.
pub fn get_properties(s: &Vec<char>) -> (r: Vec<Field>)
    ensures
        fields_in(s@, r@),
        fields_view(s@, r@) == properties(s@),
{
    let n = s.len();
    let mut out: Vec<Field> = Vec::new();
    let mut start: usize = 0;
    let ghost mut done: Seq<Seq<char>> = Seq::empty();
    let mut i: usize = 0;
    assert(s@.take(0) == Seq::<char>::empty());
    assert(split_on(Seq::<char>::empty(), ';') == seq![Seq::<char>::empty()]);
    assert(s@.subrange(0, 0) == Seq::<char>::empty());
    while i < n
        invariant
            n == s@.len(),
            start <= i <= n,
            split_on(s@.take(i as int), ';') == done.push(s@.subrange(start as int, i as int)),
            fields_in(s@, out@),
            fields_view(s@, out@) == kept(done),
        decreases n - i,
    {
        proof {
            lemma_split_step(s@, ';', done, start as int, i as int);
        }
        if s[i] == ';' {
            let f = field_at(s, start, i);
            let ghost old_out = out@;
            let ghost piece = s@.subrange(start as int, i as int);
            assert(done.push(piece).drop_last() == done);
            match f {
                Some(f) => {
                    out.push(f);
                    assert(fields_view(s@, out@) == fields_view(s@, old_out).push(field_view(s@, f)));
                },
                None => {},
            }
            proof {
                done = done.push(piece);
            }
            start = i + 1;
        }
        i = i + 1;
    }
    assert(s@.take(n as int) == s@);
    let f = field_at(s, start, n);
    let ghost old_out = out@;
    let ghost piece = s@.subrange(start as int, n as int);
    assert(done.push(piece).drop_last() == done);
    match f {
        Some(f) => {
            out.push(f);
            assert(fields_view(s@, out@) == fields_view(s@, old_out).push(field_view(s@, f)));
        },
        None => {},
    }
    out
}

/// Where the value of the last property named `key` stands.
pub fn find_value(s: &Vec<char>, props: &Vec<Field>, key: &str) -> (r: Option<(usize, usize)>)
    requires
        fields_in(s@, props@),
    ensures
        match r {
            Some((a, b)) => a <= b <= s@.len() && lookup(fields_view(s@, props@), key@) == Some(
                s@.subrange(a as int, b as int),
            ),
            None => lookup(fields_view(s@, props@), key@) is None,
        },
{
    let ghost all = fields_view(s@, props@);
    let mut j = props.len();
    assert(all.take(j as int) == all);
    while j > 0
        invariant
            j <= props@.len(),
            fields_in(s@, props@),
            all == fields_view(s@, props@),
            lookup(all, key@) == lookup(all.take(j as int), key@),
        decreases j,
    {
        let f = props[j - 1];
        assert(field_in(s@, props@[j - 1]));
        assert(all.take(j as int).drop_last() == all.take(j - 1));
        if range_is(s, f.key_lo, f.key_hi, key) {
            return Some((f.val_lo, f.val_hi));
        }
        j = j - 1;
    }
    None
}

} // verus!

verus! {

/// The text of an optional string.
pub open spec fn text_opt(o: Option<String>) -> Option<Seq<char>> {
    match o {
        Some(s) => Some(s@),
        None => None,
    }
}

/// The text of an optional float.
pub open spec fn float_opt(o: Option<FloatText>) -> Option<Seq<char>> {
    match o {
        Some(x) => Some(x@),
        None => None,
    }
}

/// A value kept as a float where std reads it as one.
pub open spec fn float_value(v: Option<Seq<char>>) -> Option<Seq<char>> {
    match v {
        Some(x) => if is_float_literal(x) {
            Some(x)
        } else {
            None
        },
        None => None,
    }
}

pub open spec fn usize_opt(o: Option<usize>) -> Option<int> {
    match o {
        Some(x) => Some(x as int),
        None => None,
    }
}

pub open spec fn i32_opt(o: Option<i32>) -> Option<int> {
    match o {
        Some(x) => Some(x as int),
        None => None,
    }
}

/// A value read as std reads a `usize`.
pub open spec fn usize_value(v: Option<Seq<char>>) -> Option<int> {
    match v {
        Some(x) => int_in(x, false, 0, usize::MAX as int),
        None => None,
    }
}

/// A value read as std reads an `i64`.
pub open spec fn i64_value(v: Option<Seq<char>>) -> Option<int> {
    match v {
        Some(x) => int_in(x, true, i64::MIN as int, i64::MAX as int),
        None => None,
    }
}

/// A value read as std reads an `i32`.
pub open spec fn i32_value(v: Option<Seq<char>>) -> Option<int> {
    match v {
        Some(x) => int_in(x, true, i32::MIN as int, i32::MAX as int),
        None => None,
    }
}

/// A piece of `s`, as a string of its own.
pub fn string_of(s: &str, a: usize, b: usize) -> (r: String)
    requires
        a <= b <= s@.len(),
    ensures
        r@ == s@.subrange(a as int, b as int),
{
    String::from_str(s.substring_char(a, b))
}

/// The bounds of each piece of `s[lo..hi]` between the separators `sep`.
pub fn split_range(s: &Vec<char>, lo: usize, hi: usize, sep: char) -> (r: Vec<(usize, usize)>)
    requires
        lo <= hi <= s@.len(),
    ensures
        r@.len() == split_on(s@.subrange(lo as int, hi as int), sep).len(),
        forall|i: int|
            0 <= i < r@.len() ==> (#[trigger] r@[i]).0 <= r@[i].1 <= s@.len() && s@.subrange(
                r@[i].0 as int,
                r@[i].1 as int,
            ) == split_on(s@.subrange(lo as int, hi as int), sep)[i],
{
    let ghost t = s@.subrange(lo as int, hi as int);
    let mut out: Vec<(usize, usize)> = Vec::new();
    let mut start: usize = lo;
    let ghost mut done: Seq<Seq<char>> = Seq::empty();
    let mut i: usize = lo;
    assert(t.take(0) == Seq::<char>::empty());
    assert(split_on(Seq::<char>::empty(), sep) == seq![Seq::<char>::empty()]);
    assert(t.subrange(0, 0) == Seq::<char>::empty());
    while i < hi
        invariant
            lo <= start <= i <= hi <= s@.len(),
            t == s@.subrange(lo as int, hi as int),
            split_on(t.take(i - lo), sep) == done.push(t.subrange(start - lo, i - lo)),
            out@.len() == done.len(),
            forall|j: int|
                0 <= j < out@.len() ==> (#[trigger] out@[j]).0 <= out@[j].1 <= s@.len()
                    && s@.subrange(out@[j].0 as int, out@[j].1 as int) == done[j],
        decreases hi - i,
    {
        proof {
            lemma_split_step(t, sep, done, start - lo, i - lo);
        }
        if s[i] == sep {
            assert(t.subrange(start - lo, i - lo) == s@.subrange(start as int, i as int));
            out.push((start, i));
            proof {
                done = done.push(t.subrange(start - lo, i - lo));
            }
            start = i + 1;
        }
        i = i + 1;
    }
    assert(t.take(hi - lo) == t);
    assert(t.subrange(start - lo, hi - lo) == s@.subrange(start as int, hi as int));
    out.push((start, hi));
    out
}

} // verus!
