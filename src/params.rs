//! Transform parameters: reading them from a request, and the cache key that
//! names each combination of them.

use vstd::prelude::*;
use crate::text::{all_digits, append_decimal, decimal, digits_value, is_digit, lemma_decimal, parse_decimal};

verus! {

/// Width, height and quality of a requested transformation, each optional.
#[derive(Clone, Copy, Debug, PartialEq, Eq, Structural)]
pub struct ImageParams {
    pub w: Option<u32>,
    pub h: Option<u32>,
    pub q: Option<u8>,
}

/// A width or height read from request text: a positive decimal number that
/// fits in `u32`. Zero, and anything that is not such a number, counts as absent.
pub open spec fn dimension_of(raw: Seq<char>) -> Option<u32> {
    if raw.len() > 0 && all_digits(raw) && 0 < digits_value(raw) <= u32::MAX {
        Some(digits_value(raw) as u32)
    } else {
        None
    }
}

/// A quality read from request text: a decimal number that fits in `u8`.
/// Values above 100 are kept here; the encoder caps them.
pub open spec fn quality_of(raw: Seq<char>) -> Option<u8> {
    if raw.len() > 0 && all_digits(raw) && digits_value(raw) <= u8::MAX {
        Some(digits_value(raw) as u8)
    } else {
        None
    }
}

pub open spec fn read_opt<T>(raw: Option<&str>, f: spec_fn(Seq<char>) -> Option<T>) -> Option<T> {
    match raw {
        Some(s) => f(s@),
        None => None,
    }
}

pub open spec fn opt_nat_u32(v: Option<u32>) -> Option<nat> {
    match v {
        Some(x) => Some(x as nat),
        None => None,
    }
}

pub open spec fn opt_nat_u8(v: Option<u8>) -> Option<nat> {
    match v {
        Some(x) => Some(x as nat),
        None => None,
    }
}

/// One field of a cache key: its tag followed by its value, or nothing.
pub open spec fn key_field(tag: char, v: Option<nat>) -> Seq<char> {
    match v {
        Some(n) => seq![tag] + decimal(n),
        None => Seq::empty(),
    }
}

/// The cache key of a parameter set: the present fields in the order width,
/// height, quality, as `w<value>`, `h<value>`, `q<value>`, with no separator.
pub open spec fn key_of(p: ImageParams) -> Seq<char> {
    key_field('w', opt_nat_u32(p.w)) + key_field('h', opt_nat_u32(p.h)) + key_field(
        'q',
        opt_nat_u8(p.q),
    )
}

/// A zero width or height counts as absent.
pub open spec fn positive(v: Option<u32>) -> Option<u32> {
    match v {
        Some(0) => None,
        _ => v,
    }
}

/// The parameters with a zero width or height taken as absent.
pub open spec fn normalized(p: ImageParams) -> ImageParams {
    ImageParams { w: positive(p.w), h: positive(p.h), q: p.q }
}

pub open spec fn has_params(p: ImageParams) -> bool {
    p.w is Some || p.h is Some || p.q is Some
}

/// The number of digits at the start of `s`.
pub open spec fn leading_digits(s: Seq<char>) -> nat
    decreases s.len(),
{
    if s.len() > 0 && is_digit(s[0]) {
        1 + leading_digits(s.subrange(1, s.len() as int))
    } else {
        0
    }
}

/// Reads one field tagged `tag` off the front of `s`, giving its value (if
/// the field is there) and what follows it.
pub open spec fn read_field(s: Seq<char>, tag: char) -> (Option<nat>, Seq<char>) {
    if s.len() > 0 && s[0] == tag {
        let k = leading_digits(s.subrange(1, s.len() as int)) as int;
        (Some(digits_value(s.subrange(1, 1 + k))), s.subrange(1 + k, s.len() as int))
    } else {
        (None, s)
    }
}

/// Reads a cache key back into its width, height and quality.
pub open spec fn read_key(s: Seq<char>) -> (Option<nat>, Option<nat>, Option<nat>) {
    let (w, r1) = read_field(s, 'w');
    let (h, r2) = read_field(r1, 'h');
    let (q, r3) = read_field(r2, 'q');
    (w, h, q)
}

pub open spec fn starts_with_none_of(s: Seq<char>, a: char, b: char) -> bool {
    s.len() > 0 ==> (!is_digit(s[0]) && s[0] != a && s[0] != b)
}

proof fn lemma_leading_digits(d: Seq<char>, rest: Seq<char>)
    requires
        all_digits(d),
        rest.len() > 0 ==> !is_digit(rest[0]),
    ensures
        leading_digits(d + rest) == d.len(),
    decreases d.len(),
{
    if d.len() > 0 {
        let tail = d.subrange(1, d.len() as int);
        assert((d + rest).subrange(1, (d + rest).len() as int) =~= tail + rest);
        assert forall|i: int| 0 <= i < tail.len() implies is_digit(#[trigger] tail[i]) by {
            assert(tail[i] == d[i + 1]);
        }
        lemma_leading_digits(tail, rest);
    } else {
        assert(d + rest =~= rest);
    }
}

proof fn lemma_read_field(tag: char, v: Option<nat>, rest: Seq<char>)
    requires
        rest.len() > 0 ==> !is_digit(rest[0]) && rest[0] != tag,
        !is_digit(tag),
    ensures
        read_field(key_field(tag, v) + rest, tag) == (v, rest),
{
    let s = key_field(tag, v) + rest;
    match v {
        Some(n) => {
            lemma_decimal(n);
            let d = decimal(n);
            assert(s.subrange(1, s.len() as int) =~= d + rest);
            lemma_leading_digits(d, rest);
            assert(s.subrange(1, 1 + d.len() as int) =~= d);
            assert(s.subrange(1 + d.len() as int, s.len() as int) =~= rest);
        },
        None => {
            assert(s =~= rest);
        },
    }
}

proof fn lemma_field_start(tag: char, v: Option<nat>, rest: Seq<char>, a: char, b: char)
    requires
        starts_with_none_of(rest, a, b),
        !is_digit(tag),
        tag != a,
        tag != b,
    ensures
        starts_with_none_of(key_field(tag, v) + rest, a, b),
{
    if v is None {
        assert(key_field(tag, v) + rest =~= rest);
    }
}

/// Reading a cache key back gives the parameters it was made from.
pub proof fn lemma_read_key(p: ImageParams)
    ensures
        read_key(key_of(p)) == (opt_nat_u32(p.w), opt_nat_u32(p.h), opt_nat_u8(p.q)),
{
    let fw = key_field('w', opt_nat_u32(p.w));
    let fh = key_field('h', opt_nat_u32(p.h));
    let fq = key_field('q', opt_nat_u8(p.q));
    let empty = Seq::<char>::empty();
    assert(fq =~= fq + empty);
    lemma_read_field('q', opt_nat_u8(p.q), empty);
    lemma_field_start('q', opt_nat_u8(p.q), empty, 'h', 'w');
    lemma_read_field('h', opt_nat_u32(p.h), fq);
    lemma_field_start('h', opt_nat_u32(p.h), fq, 'w', 'w');
    lemma_read_field('w', opt_nat_u32(p.w), fh + fq);
    assert(key_of(p) =~= fw + (fh + fq));
}

/// The cache key is a pure function of the parameters, and distinct parameter
/// sets never share a key.
pub proof fn lemma_key_injective(p1: ImageParams, p2: ImageParams)
    ensures
        key_of(p1) == key_of(p2) <==> p1 == p2,
{
    if key_of(p1) == key_of(p2) {
        lemma_read_key(p1);
        lemma_read_key(p2);
        assert(p1.w == p2.w);
        assert(p1.h == p2.h);
        assert(p1.q == p2.q);
    }
}

/// A key is empty exactly when no parameter is present, so no artifact is
/// ever filed under an empty key.
pub proof fn lemma_key_nonempty(p: ImageParams)
    ensures
        has_params(p) <==> key_of(p).len() > 0,
{
    if let Some(w) = p.w {
        lemma_decimal(w as nat);
    }
    if let Some(h) = p.h {
        lemma_decimal(h as nat);
    }
    if let Some(q) = p.q {
        lemma_decimal(q as nat);
    }
}

fn read_dimension(raw: Option<&str>) -> (r: Option<u32>)
    ensures
        r == read_opt(raw, |s: Seq<char>| dimension_of(s)),
{
    match raw {
        Some(s) => match parse_decimal(s, u32::MAX) {
            Some(v) if v > 0 => Some(v),
            _ => None,
        },
        None => None,
    }
}

fn read_quality(raw: Option<&str>) -> (r: Option<u8>)
    ensures
        r == read_opt(raw, |s: Seq<char>| quality_of(s)),
{
    match raw {
        Some(s) => match parse_decimal(s, 255) {
            Some(v) => Some(v as u8),
            None => None,
        },
        None => None,
    }
}

impl ImageParams {
    /// Reads the parameters from the raw text of the request's `w`, `h` and
    /// `q` inputs, each independently optional.
    pub fn from_query(w: Option<&str>, h: Option<&str>, q: Option<&str>) -> (r: ImageParams)
        ensures
            r.w == read_opt(w, |s: Seq<char>| dimension_of(s)),
            r.h == read_opt(h, |s: Seq<char>| dimension_of(s)),
            r.q == read_opt(q, |s: Seq<char>| quality_of(s)),
    {
        ImageParams { w: read_dimension(w), h: read_dimension(h), q: read_quality(q) }
    }

    /// The same parameters with a zero width or height taken as absent.
    pub fn normalized(&self) -> (r: ImageParams)
        ensures
            r == normalized(*self),
    {
        ImageParams {
            w: match self.w {
                Some(0) => None,
                other => other,
            },
            h: match self.h {
                Some(0) => None,
                other => other,
            },
            q: self.q,
        }
    }

    /// Whether any of the three parameters is present.
    pub fn is_empty(&self) -> (r: bool)
        ensures
            r == !has_params(*self),
    {
        self.w.is_none() && self.h.is_none() && self.q.is_none()
    }

    /// The name of the cache directory for these parameters: their cache key,
    /// or `None` when no parameter is present.
    pub fn cache_dir_name(&self) -> (r: Option<String>)
        ensures
            r is Some <==> has_params(*self),
            r matches Some(k) ==> k@ == key_of(*self),
    {
        if self.is_empty() {
            return None;
        }
        let mut key = String::new();
        if let Some(w) = self.w {
            key.append("w");
            append_decimal(&mut key, w);
        }
        if let Some(h) = self.h {
            key.append("h");
            append_decimal(&mut key, h);
        }
        if let Some(q) = self.q {
            key.append("q");
            append_decimal(&mut key, q as u32);
        }
        proof {
            reveal_strlit("w");
            reveal_strlit("h");
            reveal_strlit("q");
        }
        assert(key@ =~= key_of(*self));
        Some(key)
    }
}

} // verus!
