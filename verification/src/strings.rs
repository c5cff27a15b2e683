//! Character-level text handling: whitespace trimming, splitting on a
//! separator, and unsigned decimal parsing.
use vstd::prelude::*;
use vstd::string::StrSliceExecFns;
use crate::text::{decimal, digit_char};

verus! {

/// Unicode `White_Space` (what `char::is_whitespace` tests).
pub open spec fn is_whitespace(c: char) -> bool {
    let u = c as u32;
    ||| 0x09 <= u <= 0x0d
    ||| u == 0x20
    ||| u == 0x85
    ||| u == 0xa0
    ||| u == 0x1680
    ||| 0x2000 <= u <= 0x200a
    ||| u == 0x2028
    ||| u == 0x2029
    ||| u == 0x202f
    ||| u == 0x205f
    ||| u == 0x3000
}

pub fn char_is_whitespace(c: char) -> (r: bool)
    ensures
        r == is_whitespace(c),
{
    let u = c as u32;
    (0x09 <= u && u <= 0x0d) || u == 0x20 || u == 0x85 || u == 0xa0 || u == 0x1680
        || (0x2000 <= u && u <= 0x200a) || u == 0x2028 || u == 0x2029 || u == 0x202f
        || u == 0x205f || u == 0x3000
}

/// `s` without its leading whitespace.
pub open spec fn trim_start(s: Seq<char>) -> Seq<char>
    decreases s.len(),
{
    if s.len() > 0 && is_whitespace(s[0]) {
        trim_start(s.drop_first())
    } else {
        s
    }
}

/// `s` without its trailing whitespace.
pub open spec fn trim_end(s: Seq<char>) -> Seq<char>
    decreases s.len(),
{
    if s.len() > 0 && is_whitespace(s.last()) {
        trim_end(s.drop_last())
    } else {
        s
    }
}

/// `s` without leading and trailing whitespace (what `str::trim` returns).
pub open spec fn trim(s: Seq<char>) -> Seq<char> {
    trim_end(trim_start(s))
}

/// Trims leading and trailing whitespace.
pub fn trim_str(s: &str) -> (r: &str)
    ensures
        r@ == trim(s@),
{
    let n = s.unicode_len();
    assert(s@.subrange(0, n as int) =~= s@);
    let mut a: usize = 0;
    while a < n
        invariant
            a <= n,
            n == s@.len(),
            trim_start(s@) == trim_start(s@.subrange(a as int, n as int)),
        ensures
            a <= n,
            trim_start(s@) == trim_start(s@.subrange(a as int, n as int)),
            a < n ==> !is_whitespace(s@[a as int]),
        decreases n - a,
    {
        if !char_is_whitespace(s.get_char(a)) {
            break;
        }
        assert(s@.subrange(a as int, n as int).drop_first() =~= s@.subrange(a + 1, n as int));
        a = a + 1;
    }
    assert(trim_start(s@.subrange(a as int, n as int)) == s@.subrange(a as int, n as int));
    let mut b: usize = n;
    while b > a
        invariant
            a <= b <= n,
            n == s@.len(),
            trim_end(s@.subrange(a as int, n as int)) == trim_end(s@.subrange(a as int, b as int)),
        ensures
            a <= b <= n,
            trim_end(s@.subrange(a as int, n as int)) == trim_end(s@.subrange(a as int, b as int)),
            b > a ==> !is_whitespace(s@[b - 1]),
        decreases b - a,
    {
        if !char_is_whitespace(s.get_char(b - 1)) {
            break;
        }
        assert(s@.subrange(a as int, b as int).drop_last() =~= s@.subrange(a as int, b - 1));
        b = b - 1;
    }
    assert(trim_end(s@.subrange(a as int, b as int)) == s@.subrange(a as int, b as int));
    s.substring_char(a, b)
}

/// The pieces of `s` between occurrences of `sep` (what `str::split` yields):
/// always at least one piece.
pub open spec fn split_on(s: Seq<char>, sep: char) -> Seq<Seq<char>>
    decreases s.len(),
{
    if s.len() == 0 {
        seq![Seq::empty()]
    } else {
        let prev = split_on(s.drop_last(), sep);
        if s.last() == sep {
            prev.push(Seq::empty())
        } else {
            prev.update(prev.len() - 1, prev.last().push(s.last()))
        }
    }
}

pub proof fn lemma_split_on_nonempty(s: Seq<char>, sep: char)
    ensures
        split_on(s, sep).len() >= 1,
    decreases s.len(),
{
    if s.len() > 0 {
        lemma_split_on_nonempty(s.drop_last(), sep);
    }
}

/// Splits `s` on every occurrence of `sep`.
pub fn split_str(s: &str, sep: char) -> (r: Vec<&str>)
    ensures
        r@.len() >= 1,
        r@.len() == split_on(s@, sep).len(),
        forall|j: int| 0 <= j < r@.len() ==> (#[trigger] r@[j])@ == split_on(s@, sep)[j],
{
    let n = s.unicode_len();
    let mut pieces: Vec<&str> = Vec::new();
    let mut start: usize = 0;
    let mut i: usize = 0;
    while i < n
        invariant
            n == s@.len(),
            start <= i <= n,
            pieces@.len() + 1 == split_on(s@.subrange(0, i as int), sep).len(),
            forall|j: int| 0 <= j < pieces@.len() ==>
                (#[trigger] pieces@[j])@ == split_on(s@.subrange(0, i as int), sep)[j],
            split_on(s@.subrange(0, i as int), sep).last() == s@.subrange(start as int, i as int),
        decreases n - i,
    {
        let c = s.get_char(i);
        let ghost prefix = s@.subrange(0, i as int);
        let ghost next = s@.subrange(0, i + 1);
        assert(next.drop_last() =~= prefix);
        proof {
            lemma_split_on_nonempty(prefix, sep);
        }
        if c == sep {
            let piece = s.substring_char(start, i);
            pieces.push(piece);
            start = i + 1;
            assert(s@.subrange(start as int, i + 1) =~= Seq::<char>::empty());
        } else {
            assert(s@.subrange(start as int, i + 1) =~= s@.subrange(start as int, i as int).push(c));
        }
        i = i + 1;
    }
    let last = s.substring_char(start, n);
    pieces.push(last);
    assert(s@.subrange(0, n as int) =~= s@);
    pieces
}

/// An ASCII decimal digit.
pub open spec fn is_digit(c: char) -> bool {
    48 <= (c as u32) <= 57
}

pub open spec fn digit_val(c: char) -> nat {
    ((c as u32) - 48) as nat
}

/// The value of a string of decimal digits, most significant first.
pub open spec fn digits_val(s: Seq<char>) -> nat
    decreases s.len(),
{
    if s.len() == 0 {
        0
    } else {
        digits_val(s.drop_last()) * 10 + digit_val(s.last())
    }
}

pub open spec fn all_digits(s: Seq<char>) -> bool {
    forall|i: int| 0 <= i < s.len() ==> is_digit(#[trigger] s[i])
}

/// The digits of an unsigned number: the text after an optional leading `+`.
pub open spec fn unsigned_body(s: Seq<char>) -> Seq<char> {
    if s.len() > 0 && s[0] == '+' {
        s.drop_first()
    } else {
        s
    }
}

/// What parsing `s` as an unsigned integer no greater than `max` gives
/// (`str::parse` on an unsigned type): an optional `+`, then one or more
/// decimal digits whose value fits.
pub open spec fn parse_unsigned(s: Seq<char>, max: nat) -> Option<nat> {
    let b = unsigned_body(s);
    if b.len() > 0 && all_digits(b) && digits_val(b) <= max {
        Some(digits_val(b))
    } else {
        None
    }
}

proof fn lemma_digits_val_prefix(t: Seq<char>, k: int)
    requires
        all_digits(t),
        0 <= k <= t.len(),
    ensures
        digits_val(t.subrange(0, k)) <= digits_val(t),
    decreases t.len(),
{
    if k < t.len() {
        assert(t.drop_last().subrange(0, k) =~= t.subrange(0, k));
        lemma_digits_val_prefix(t.drop_last(), k);
    } else {
        assert(t.subrange(0, k) =~= t);
    }
}

/// Parses an unsigned decimal integer no greater than `max`.
pub fn parse_decimal(s: &str, max: u128) -> (r: Option<u128>)
    requires
        max >= 9,
    ensures
        match r {
            Some(v) => parse_unsigned(s@, max as nat) == Some(v as nat),
            None => parse_unsigned(s@, max as nat) is None,
        },
{
    let n = s.unicode_len();
    if n == 0 {
        return None;
    }
    let mut start: usize = 0;
    if s.get_char(0) == '+' {
        start = 1;
    }
    let ghost body = unsigned_body(s@);
    assert(body =~= s@.subrange(start as int, n as int));
    if start == n {
        return None;
    }
    let mut v: u128 = 0;
    let mut i: usize = start;
    while i < n
        invariant
            n == s@.len(),
            start <= i <= n,
            max >= 9,
            body == s@.subrange(start as int, n as int),
            body == unsigned_body(s@),
            v as nat == digits_val(s@.subrange(start as int, i as int)),
            all_digits(s@.subrange(start as int, i as int)),
            v <= max,
        decreases n - i,
    {
        let c = s.get_char(i);
        let u = c as u32;
        if u < 48 || u > 57 {
            assert(!is_digit(body[i - start]));
            assert(!all_digits(body));
            return None;
        }
        let d: u128 = (u - 48) as u128;
        let ghost next = s@.subrange(start as int, i + 1);
        assert(next.drop_last() =~= s@.subrange(start as int, i as int));
        assert(all_digits(next));
        assert(digits_val(next) == v * 10 + d);
        if v > (max - d) / 10 {
            assert(v * 10 + d > max) by (nonlinear_arith)
                requires
                    v > (max - d) / 10,
                    d <= 9,
                    max >= 9,
            ;
            proof {
                if all_digits(body) {
                    assert(body.subrange(0, i + 1 - start) =~= next);
                    lemma_digits_val_prefix(body, i + 1 - start);
                    assert(digits_val(body) > max);
                }
            }
            return None;
        }
        assert(v * 10 + d <= max) by (nonlinear_arith)
            requires
                v <= (max - d) / 10,
                d <= 9,
                max >= 9,
        ;
        v = v * 10 + d;
        i = i + 1;
    }
    assert(s@.subrange(start as int, n as int) =~= body);
    Some(v)
}


/// Whether `s` begins with `p`.
pub open spec fn starts_with(s: Seq<char>, p: Seq<char>) -> bool {
    p.len() <= s.len() && s.subrange(0, p.len() as int) == p
}

pub fn str_starts_with(s: &str, p: &str) -> (r: bool)
    ensures
        r == starts_with(s@, p@),
{
    let n = s.unicode_len();
    let m = p.unicode_len();
    if m > n {
        return false;
    }
    let mut i: usize = 0;
    while i < m
        invariant
            m <= n,
            n == s@.len(),
            m == p@.len(),
            i <= m,
            forall|j: int| 0 <= j < i ==> s@[j] == p@[j],
        decreases m - i,
    {
        if s.get_char(i) != p.get_char(i) {
            assert(s@.subrange(0, m as int)[i as int] != p@[i as int]);
            return false;
        }
        i = i + 1;
    }
    assert(s@.subrange(0, m as int) =~= p@);
    true
}

/// A string without `sep` is a single piece.
pub proof fn lemma_split_on_no_sep(s: Seq<char>, sep: char)
    requires
        forall|i: int| 0 <= i < s.len() ==> s[i] != sep,
    ensures
        split_on(s, sep) == seq![s],
    decreases s.len(),
{
    if s.len() > 0 {
        lemma_split_on_no_sep(s.drop_last(), sep);
        assert(s.drop_last().push(s.last()) =~= s);
        assert(split_on(s, sep) =~= seq![s]);
    } else {
        assert(s =~= Seq::<char>::empty());
    }
}

/// The first piece of `x + [sep] + y` is `x` when `x` holds no `sep`.
pub proof fn lemma_split_on_first_piece(x: Seq<char>, sep: char, y: Seq<char>)
    requires
        forall|i: int| 0 <= i < x.len() ==> x[i] != sep,
    ensures
        split_on(x + seq![sep] + y, sep).len() >= 2,
        split_on(x + seq![sep] + y, sep)[0] == x,
    decreases y.len(),
{
    if y.len() == 0 {
        lemma_split_on_no_sep(x, sep);
        assert((x + seq![sep] + y).drop_last() =~= x);
        assert(x + seq![sep] + y =~= x.push(sep));
    } else {
        lemma_split_on_first_piece(x, sep, y.drop_last());
        assert((x + seq![sep] + y).drop_last() =~= x + seq![sep] + y.drop_last());
    }
}


proof fn lemma_digit_char(k: nat)
    requires
        k < 10,
    ensures
        is_digit(digit_char(k)),
        digit_val(digit_char(k)) == k,
{
}

/// A decimal rendering is all digits and reads back as the number it renders.
pub proof fn lemma_decimal_digits(n: nat)
    ensures
        decimal(n).len() >= 1,
        all_digits(decimal(n)),
        digits_val(decimal(n)) == n,
    decreases n,
{
    if n < 10 {
        lemma_digit_char(n);
        assert(decimal(n).drop_last() =~= Seq::<char>::empty());
        assert(digits_val(decimal(n)) == digits_val(Seq::<char>::empty()) * 10 + digit_val(digit_char(n)));
    } else {
        lemma_decimal_digits(n / 10);
        lemma_digit_char(n % 10);
        let d = decimal(n);
        assert(d.drop_last() =~= decimal(n / 10));
        assert(d.last() == digit_char(n % 10));
        assert(digits_val(d) == digits_val(decimal(n / 10)) * 10 + digit_val(digit_char(n % 10)));
        assert(all_digits(d)) by {
            assert forall|i: int| 0 <= i < d.len() implies is_digit(#[trigger] d[i]) by {
                if i < d.len() - 1 {
                    assert(d[i] == decimal(n / 10)[i]);
                }
            }
        }
    }
}

/// Parsing a decimal rendering gives back the number, when it fits.
pub proof fn lemma_parse_decimal_roundtrip(n: nat, max: nat)
    requires
        n <= max,
    ensures
        parse_unsigned(decimal(n), max) == Some(n),
{
    lemma_decimal_digits(n);
    let d = decimal(n);
    assert(is_digit(d[0]));
    assert(d[0] != '+');
    assert(unsigned_body(d) == d);
}


/// A text that neither begins nor ends with whitespace is its own trim.
pub proof fn lemma_trim_identity(s: Seq<char>)
    requires
        s.len() > 0 ==> !is_whitespace(s[0]) && !is_whitespace(s.last()),
    ensures
        trim(s) == s,
{
}

/// Splitting distributes over a separator.
pub proof fn lemma_split_on_concat(a: Seq<char>, sep: char, b: Seq<char>)
    ensures
        split_on(a + seq![sep] + b, sep) == split_on(a, sep) + split_on(b, sep),
    decreases b.len(),
{
    lemma_split_on_nonempty(a, sep);
    if b.len() == 0 {
        assert((a + seq![sep] + b).drop_last() =~= a);
        assert(split_on(b, sep) =~= seq![Seq::<char>::empty()]);
        assert(split_on(a + seq![sep] + b, sep) =~= split_on(a, sep) + split_on(b, sep));
    } else {
        lemma_split_on_concat(a, sep, b.drop_last());
        lemma_split_on_nonempty(b.drop_last(), sep);
        assert((a + seq![sep] + b).drop_last() =~= a + seq![sep] + b.drop_last());
        let pa = split_on(a, sep);
        let pb = split_on(b.drop_last(), sep);
        if b.last() == sep {
            assert((pa + pb).push(Seq::<char>::empty()) =~= pa + pb.push(Seq::<char>::empty()));
        } else {
            assert((pa + pb).update((pa + pb).len() - 1, (pa + pb).last().push(b.last()))
                =~= pa + pb.update(pb.len() - 1, pb.last().push(b.last())));
        }
    }
}

/// Decimal renderings of a sequence of numbers, joined by `sep`.
pub open spec fn join_decimals(v: Seq<u16>, sep: char) -> Seq<char>
    decreases v.len(),
{
    if v.len() <= 1 {
        if v.len() == 0 { Seq::empty() } else { decimal(v[0] as nat) }
    } else {
        join_decimals(v.drop_last(), sep) + seq![sep] + decimal(v.last() as nat)
    }
}

/// Joined decimals begin and end with a digit.
pub proof fn lemma_join_decimals_ends(v: Seq<u16>, sep: char)
    requires
        v.len() >= 1,
    ensures
        join_decimals(v, sep).len() >= 1,
        is_digit(join_decimals(v, sep)[0]),
        is_digit(join_decimals(v, sep).last()),
    decreases v.len(),
{
    lemma_decimal_digits(v.last() as nat);
    if v.len() == 1 {
        lemma_decimal_digits(v[0] as nat);
    } else {
        lemma_join_decimals_ends(v.drop_last(), sep);
        let j = join_decimals(v.drop_last(), sep);
        let d = decimal(v.last() as nat);
        assert((j + seq![sep] + d)[0] == j[0]);
        assert((j + seq![sep] + d).last() == d.last());
    }
}

/// Splitting joined decimals on a non-digit separator gives back each rendering.
pub proof fn lemma_split_join_decimals(v: Seq<u16>, sep: char)
    requires
        v.len() >= 1,
        !is_digit(sep),
    ensures
        split_on(join_decimals(v, sep), sep) == Seq::new(v.len(), |i: int| decimal(v[i] as nat)),
    decreases v.len(),
{
    let d = decimal(v.last() as nat);
    lemma_decimal_digits(v.last() as nat);
    assert forall|i: int| 0 <= i < d.len() implies d[i] != sep by {
        assert(is_digit(d[i]));
    }
    lemma_split_on_no_sep(d, sep);
    if v.len() == 1 {
        assert(split_on(join_decimals(v, sep), sep) =~= Seq::new(v.len(), |i: int| decimal(v[i] as nat)));
    } else {
        lemma_split_join_decimals(v.drop_last(), sep);
        lemma_split_on_concat(join_decimals(v.drop_last(), sep), sep, d);
        assert(split_on(join_decimals(v, sep), sep) =~= Seq::new(v.len(), |i: int| decimal(v[i] as nat)));
    }
}

} // verus!
