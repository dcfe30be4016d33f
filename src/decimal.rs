//! Exact decimal numbers, written the way a shortest round-trip float is printed.
use vstd::prelude::*;
use crate::text::{digit, digit_char, nat_text, push_char};

verus! {

/// The number `mantissa / 10^scale`, negated when `negative` is set.
///
/// Opacities and font sizes are carried in this form, so that the markup holds
/// exactly the digits they were given with.
#[derive(Clone, Copy, Debug, PartialEq, Eq, Structural)]
pub struct Decimal {
    pub negative: bool,
    pub mantissa: u64,
    pub scale: u32,
}

/// The same number with the trailing zeros of its fraction removed.
pub open spec fn normal_form(m: nat, s: nat) -> (nat, nat)
    decreases s,
{
    if s > 0 && m % 10 == 0 {
        normal_form(m / 10, (s - 1) as nat)
    } else {
        (m, s)
    }
}

/// `n` zero digits.
pub open spec fn zeros(n: nat) -> Seq<char> {
    Seq::new(n, |i: int| '0')
}

/// `m / 10^s` written out in full, with `s` digits after the point (none, and no
/// point, when `s` is zero).
pub open spec fn fixed_text(m: nat, s: nat) -> Seq<char> {
    let ds = nat_text(m);
    if s == 0 {
        ds
    } else if ds.len() <= s {
        seq!['0', '.'] + zeros((s - ds.len()) as nat) + ds
    } else {
        ds.take(ds.len() - s) + seq!['.'] + ds.skip(ds.len() - s)
    }
}

impl Decimal {
    /// Whether the number is zero (of either sign).
    pub open spec fn spec_is_zero(&self) -> bool {
        self.mantissa == 0
    }

    /// The shortest text of the number: no trailing zeros after the point, no
    /// point for a whole number, a minus sign when `negative` is set.
    pub open spec fn text(&self) -> Seq<char> {
        let (m, s) = normal_form(self.mantissa as nat, self.scale as nat);
        (if self.negative { seq!['-'] } else { Seq::empty() }) + fixed_text(m, s)
    }

    #[verifier::when_used_as_spec(spec_is_zero)]
    pub fn is_zero(&self) -> (r: bool)
        ensures
            r == self.spec_is_zero(),
    {
        self.mantissa == 0
    }

    /// Appends the text of the number.
    pub fn write_to(&self, out: &mut String)
        ensures
            final(out)@ == old(out)@ + self.text(),
    {
        let mut m: u64 = self.mantissa;
        let mut s: u32 = self.scale;
        while s > 0 && m % 10 == 0
            invariant
                normal_form(m as nat, s as nat) == normal_form(self.mantissa as nat, self.scale as nat),
            decreases s,
        {
            m = m / 10;
            s = s - 1;
        }
        assert(normal_form(m as nat, s as nat) == (m as nat, s as nat));
        let ghost start = out@;
        if self.negative {
            push_char(out, '-');
        }
        let ghost signed = out@;
        assert(signed == start + (if self.negative { seq!['-'] } else { Seq::<char>::empty() }));
        let ds = nat_digits(m);
        let n: usize = ds.len();
        let su: usize = s as usize;
        if s == 0 {
            push_chars(out, &ds, 0, n);
            assert(ds@.subrange(0, n as int) =~= ds@);
        } else if n <= su {
            push_char(out, '0');
            push_char(out, '.');
            let mut k: usize = 0;
            while k < su - n
                invariant
                    n <= su,
                    k <= su - n,
                    out@ == signed + seq!['0', '.'] + zeros(k as nat),
                decreases su - n - k,
            {
                push_char(out, '0');
                k = k + 1;
                assert(out@ =~= signed + seq!['0', '.'] + zeros(k as nat));
            }
            push_chars(out, &ds, 0, n);
            assert(ds@.subrange(0, n as int) =~= ds@);
        } else {
            push_chars(out, &ds, 0, n - su);
            push_char(out, '.');
            push_chars(out, &ds, n - su, n);
            assert(ds@.subrange(0, (n - su) as int) =~= ds@.take(n - su));
            assert(ds@.subrange((n - su) as int, n as int) =~= ds@.skip(n - su));
        }
        assert(out@ =~= start + self.text());
    }
}

/// The decimal digits of `n`, in a vector.
pub fn nat_digits(n: u64) -> (r: Vec<char>)
    ensures
        r@ == nat_text(n as nat),
    decreases n,
{
    let mut r = if n >= 10 {
        nat_digits(n / 10)
    } else {
        Vec::new()
    };
    r.push(digit(n % 10));
    assert(r@ =~= nat_text(n as nat));
    r
}

/// Appends the characters `v[from..to]`.
pub fn push_chars(out: &mut String, v: &Vec<char>, from: usize, to: usize)
    requires
        from <= to <= v@.len(),
    ensures
        final(out)@ == old(out)@ + v@.subrange(from as int, to as int),
{
    let mut i: usize = from;
    while i < to
        invariant
            from <= i <= to <= v@.len(),
            out@ == old(out)@ + v@.subrange(from as int, i as int),
        decreases to - i,
    {
        push_char(out, v[i]);
        i = i + 1;
        assert(out@ =~= old(out)@ + v@.subrange(from as int, i as int));
    }
}

/// Whether `c` is one of the digits `0` to `9`.
pub open spec fn is_digit(c: char) -> bool {
    c == '0' || c == '1' || c == '2' || c == '3' || c == '4' || c == '5' || c == '6' || c == '7'
        || c == '8' || c == '9'
}

/// The value of a decimal digit.
pub open spec fn digit_value(c: char) -> nat {
    if c == '1' { 1 }
    else if c == '2' { 2 }
    else if c == '3' { 3 }
    else if c == '4' { 4 }
    else if c == '5' { 5 }
    else if c == '6' { 6 }
    else if c == '7' { 7 }
    else if c == '8' { 8 }
    else if c == '9' { 9 }
    else { 0 }
}

pub open spec fn all_digits(s: Seq<char>) -> bool {
    forall|i: int| 0 <= i < s.len() ==> is_digit(#[trigger] s[i])
}

/// The number that a string of decimal digits denotes.
pub open spec fn digits_value(s: Seq<char>) -> nat
    decreases s.len(),
{
    if s.len() == 0 {
        0
    } else {
        digits_value(s.drop_last()) * 10 + digit_value(s.last())
    }
}

/// The position of the first `.` in `s`, or its length where it has none.
pub open spec fn dot_index(s: Seq<char>) -> nat
    decreases s.len(),
{
    if s.len() == 0 || s[0] == '.' {
        0
    } else {
        1 + dot_index(s.drop_first())
    }
}

/// Whether `t` starts with a minus sign.
pub open spec fn is_negative_text(t: Seq<char>) -> bool {
    t.len() > 0 && t[0] == '-'
}

/// `t` without its minus sign.
pub open spec fn unsigned_part(t: Seq<char>) -> Seq<char> {
    if is_negative_text(t) { t.drop_first() } else { t }
}

/// Whether the unsigned part of `t` holds a `.`.
pub open spec fn has_point(t: Seq<char>) -> bool {
    dot_index(unsigned_part(t)) < unsigned_part(t).len()
}

/// What stands between the sign and the first `.` (or the end).
pub open spec fn whole_part(t: Seq<char>) -> Seq<char> {
    unsigned_part(t).take(dot_index(unsigned_part(t)) as int)
}

/// What follows the first `.`; empty where there is none.
pub open spec fn frac_part(t: Seq<char>) -> Seq<char> {
    if has_point(t) {
        unsigned_part(t).skip(dot_index(unsigned_part(t)) + 1 as int)
    } else {
        Seq::empty()
    }
}

/// The number that `t` writes as an optional `-`, one or more digits, and
/// optionally a `.` followed by one or more digits; `None` for any other text,
/// and where the digits together exceed `u64` or the fraction has more than
/// `u32::MAX` digits.
pub open spec fn parsed(t: Seq<char>) -> Option<Decimal> {
    let whole = whole_part(t);
    let frac = frac_part(t);
    if whole.len() > 0 && all_digits(whole) && all_digits(frac) && (has_point(t) ==> frac.len() > 0)
        && digits_value(whole + frac) <= u64::MAX && frac.len() <= u32::MAX {
        Some(Decimal { negative: is_negative_text(t), mantissa: digits_value(whole + frac) as u64, scale: frac.len() as u32 })
    } else {
        None
    }
}

/// Whether `t` is a number in the form that floats print in: it reads as a
/// decimal, its whole part has no leading zero (unless it is `0` itself), and a
/// fraction does not end in zero.
pub open spec fn is_shortest_text(t: Seq<char>) -> bool {
    &&& parsed(t) is Some
    &&& whole_part(t).len() == 1 || whole_part(t)[0] != '0'
    &&& frac_part(t).len() == 0 || frac_part(t).last() != '0'
}

proof fn lemma_dot_index(s: Seq<char>, i: int)
    requires
        0 <= i <= s.len(),
        forall|j: int| 0 <= j < i ==> s[j] != '.',
        i == s.len() || s[i] == '.',
    ensures
        dot_index(s) == i,
    decreases s.len(),
{
    if s.len() > 0 && s[0] != '.' {
        let rest = s.drop_first();
        assert forall|j: int| 0 <= j < i - 1 implies rest[j] != '.' by {
            assert(rest[j] == s[j + 1]);
        }
        if i < s.len() {
            assert(rest[i - 1] == s[i]);
        }
        lemma_dot_index(rest, i - 1);
    }
}

proof fn lemma_digits_prefix(s: Seq<char>, i: int)
    requires
        0 <= i <= s.len(),
    ensures
        digits_value(s.take(i)) <= digits_value(s),
    decreases s.len(),
{
    if i < s.len() {
        assert(s.drop_last().take(i) =~= s.take(i));
        lemma_digits_prefix(s.drop_last(), i);
    } else {
        assert(s.take(i) =~= s);
    }
}

/// The value of a decimal digit character, if it is one.
pub fn digit_of(c: char) -> (r: Option<u64>)
    ensures
        r is Some <==> is_digit(c),
        r matches Some(d) ==> d == digit_value(c),
{
    match c {
        '0' => Some(0),
        '1' => Some(1),
        '2' => Some(2),
        '3' => Some(3),
        '4' => Some(4),
        '5' => Some(5),
        '6' => Some(6),
        '7' => Some(7),
        '8' => Some(8),
        '9' => Some(9),
        _ => None,
    }
}

/// The characters of a string.
pub fn chars_of(t: &str) -> (r: Vec<char>)
    ensures
        r@ == t@,
{
    let mut r: Vec<char> = Vec::new();
    for c in it: t.chars()
        invariant
            it.seq() == t@,
            r@ == t@.take(it.index() as int),
    {
        r.push(c);
        assert(r@ =~= t@.take(it.index() as int + 1));
    }
    assert(t@.take(t@.len() as int) =~= t@);
    r
}

/// The number that the digits `ds` denote, if they are all digits and it fits.
fn digits_to_u64(ds: &Vec<char>) -> (r: Option<u64>)
    ensures
        r is Some <==> all_digits(ds@) && digits_value(ds@) <= u64::MAX,
        r matches Some(v) ==> v == digits_value(ds@),
{
    let mut acc: u64 = 0;
    let mut i: usize = 0;
    while i < ds.len()
        invariant
            i <= ds@.len(),
            all_digits(ds@.take(i as int)),
            acc == digits_value(ds@.take(i as int)),
        decreases ds@.len() - i,
    {
        let ghost next = ds@.take(i as int + 1);
        assert(next.drop_last() =~= ds@.take(i as int));
        let d: u64 = match digit_of(ds[i]) {
            Some(d) => d,
            None => {
                assert(!all_digits(ds@));
                return None;
            },
        };
        if acc > (u64::MAX - d) / 10 {
            proof {
                assert(digits_value(next) > u64::MAX) by (nonlinear_arith)
                    requires
                        digits_value(next) == acc * 10 + d,
                        acc > (u64::MAX - d) / 10,
                        d <= 9;
                lemma_digits_prefix(ds@, i as int + 1);
            }
            return None;
        }
        assert(acc * 10 + d <= u64::MAX) by (nonlinear_arith)
            requires
                acc <= (u64::MAX - d) / 10,
                d <= 9;
        acc = acc * 10 + d;
        i = i + 1;
        assert(all_digits(next));
    }
    assert(ds@.take(ds@.len() as int) =~= ds@);
    Some(acc)
}

impl Decimal {
    /// Reads a number written as an optional `-`, digits, and optionally `.`
    /// and more digits (the way floats are printed).
    pub fn parse(t: &str) -> (r: Option<Decimal>)
        ensures
            r == parsed(t@),
    {
        let cs = chars_of(t);
        let negative = cs.len() > 0 && cs[0] == '-';
        let start: usize = if negative { 1 } else { 0 };
        let ghost u = if negative { t@.drop_first() } else { t@ };
        assert(u =~= t@.skip(start as int));
        let mut k: usize = start;
        while k < cs.len() && cs[k] != '.'
            invariant
                start <= k <= cs@.len(),
                cs@ == t@,
                forall|j: int| start <= j < k ==> cs@[j] != '.',
            decreases cs@.len() - k,
        {
            k = k + 1;
        }
        proof {
            assert forall|j: int| 0 <= j < k - start implies u[j] != '.' by {
                assert(u[j] == cs@[j + start]);
            }
            if k < cs.len() {
                assert(u[k - start] == cs@[k as int]);
            }
            lemma_dot_index(u, k - start);
        }
        let has_dot = k < cs.len();
        let mut ds: Vec<char> = Vec::new();
        let mut i: usize = start;
        while i < k
            invariant
                start <= i <= k <= cs@.len(),
                ds@ == cs@.subrange(start as int, i as int),
            decreases k - i,
        {
            ds.push(cs[i]);
            i = i + 1;
            assert(ds@ =~= cs@.subrange(start as int, i as int));
        }
        let whole_len: usize = ds.len();
        let frac_start: usize = if has_dot { k + 1 } else { k };
        let mut i: usize = frac_start;
        while i < cs.len()
            invariant
                frac_start <= i <= cs@.len(),
                whole_len == k - start,
                ds@ == cs@.subrange(start as int, k as int) + cs@.subrange(frac_start as int, i as int),
            decreases cs@.len() - i,
        {
            ds.push(cs[i]);
            i = i + 1;
            assert(ds@ =~= cs@.subrange(start as int, k as int) + cs@.subrange(frac_start as int, i as int));
        }
        let frac_len: usize = cs.len() - frac_start;
        let ghost whole = u.take((k - start) as int);
        let ghost frac = if has_dot { u.skip((k - start) as int + 1) } else { Seq::<char>::empty() };
        assert(whole =~= cs@.subrange(start as int, k as int));
        assert(frac =~= cs@.subrange(frac_start as int, cs@.len() as int));
        assert(ds@ =~= whole + frac);
        if whole_len == 0 || (has_dot && frac_len == 0) || frac_len > u32::MAX as usize {
            return None;
        }
        match digits_to_u64(&ds) {
            Some(m) => {
                proof {
                    assert forall|j: int| 0 <= j < whole.len() implies is_digit(#[trigger] whole[j]) by {
                        assert(whole[j] == ds@[j]);
                    }
                    assert forall|j: int| 0 <= j < frac.len() implies is_digit(#[trigger] frac[j]) by {
                        assert(frac[j] == ds@[whole.len() + j]);
                    }
                }
                Some(Decimal { negative, mantissa: m, scale: frac_len as u32 })
            },
            None => {
                proof {
                    if all_digits(whole) && all_digits(frac) {
                        assert forall|j: int| 0 <= j < ds@.len() implies is_digit(#[trigger] ds@[j]) by {
                            if j < whole.len() {
                                assert(ds@[j] == whole[j]);
                            } else {
                                assert(ds@[j] == frac[j - whole.len()]);
                            }
                        }
                    }
                }
                None
            },
        }
    }
}

proof fn lemma_digit_char_value(c: char)
    requires
        is_digit(c),
    ensures
        digit_value(c) < 10,
        digit_char(digit_value(c)) == c,
        c != '0' ==> digit_value(c) >= 1,
{
}

/// The position that `dot_index` finds holds a `.`.
proof fn lemma_dot_found(s: Seq<char>)
    requires
        dot_index(s) < s.len(),
    ensures
        s[dot_index(s) as int] == '.',
    decreases s.len(),
{
    if s[0] != '.' {
        lemma_dot_found(s.drop_first());
    }
}

proof fn lemma_dot_index_bound(s: Seq<char>)
    ensures
        dot_index(s) <= s.len(),
    decreases s.len(),
{
    if s.len() > 0 && s[0] != '.' {
        lemma_dot_index_bound(s.drop_first());
    }
}

/// Digits that do not start with a zero denote at least one.
proof fn lemma_value_positive(x: Seq<char>)
    requires
        x.len() > 0,
        all_digits(x),
        x[0] != '0',
    ensures
        digits_value(x) >= 1,
{
    lemma_digits_prefix(x, 1);
    assert(x.take(1).drop_last() =~= Seq::<char>::empty());
    lemma_digit_char_value(x[0]);
}

/// Digits without a leading zero are the decimal text of the number they denote.
proof fn lemma_text_of_digits(x: Seq<char>)
    requires
        x.len() > 0,
        all_digits(x),
        x.len() == 1 || x[0] != '0',
    ensures
        nat_text(digits_value(x)) == x,
    decreases x.len(),
{
    let c = x.last();
    lemma_digit_char_value(c);
    if x.len() == 1 {
        assert(x.drop_last() =~= Seq::<char>::empty());
        assert(digits_value(x.drop_last()) == 0);
        assert(digits_value(x) == digit_value(c));
        assert(x =~= seq![c]);
    } else {
        let y = x.drop_last();
        assert(y[0] == x[0]);
        assert(all_digits(y)) by {
            assert forall|i: int| 0 <= i < y.len() implies is_digit(#[trigger] y[i]) by {
                assert(y[i] == x[i]);
            }
        }
        lemma_text_of_digits(y);
        lemma_value_positive(y);
        let v = digits_value(x);
        let d = digit_value(c);
        assert(v == digits_value(y) * 10 + d);
        assert(v / 10 == digits_value(y) && v % 10 == d) by (nonlinear_arith)
            requires
                v == digits_value(y) * 10 + d,
                d < 10;
        assert(nat_text(v) =~= y.push(c));
        assert(y.push(c) =~= x);
    }
}

proof fn lemma_zeros_value(z: nat)
    ensures
        digits_value(zeros(z)) == 0,
    decreases z,
{
    if z > 0 {
        assert(zeros(z).drop_last() =~= zeros((z - 1) as nat));
        lemma_zeros_value((z - 1) as nat);
    }
}

/// Leading zeros do not change the number that digits denote.
proof fn lemma_leading_zeros(z: nat, y: Seq<char>)
    ensures
        digits_value(zeros(z) + y) == digits_value(y),
    decreases y.len(),
{
    if y.len() == 0 {
        assert(zeros(z) + y =~= zeros(z));
        lemma_zeros_value(z);
    } else {
        assert((zeros(z) + y).drop_last() =~= zeros(z) + y.drop_last());
        assert((zeros(z) + y).last() == y.last());
        lemma_leading_zeros(z, y.drop_last());
    }
}

/// The number of zeros that `y` starts with.
pub open spec fn leading_zeros(y: Seq<char>) -> nat
    decreases y.len(),
{
    if y.len() > 0 && y[0] == '0' {
        1 + leading_zeros(y.drop_first())
    } else {
        0
    }
}

proof fn lemma_split_leading_zeros(y: Seq<char>)
    requires
        y.len() > 0,
        y.last() != '0',
    ensures
        leading_zeros(y) < y.len(),
        y =~= zeros(leading_zeros(y)) + y.skip(leading_zeros(y) as int),
        y[leading_zeros(y) as int] != '0',
    decreases y.len(),
{
    if y[0] == '0' {
        let r = y.drop_first();
        assert(r.len() > 0);
        assert(r.last() == y.last());
        lemma_split_leading_zeros(r);
        let z = leading_zeros(r);
        assert(r.skip(z as int) =~= y.skip(z + 1 as int));
        assert(y[z + 1 as int] == r[z as int]);
        assert(y =~= zeros(z + 1) + y.skip(z + 1 as int)) by {
            assert forall|i: int| 0 <= i < y.len() implies y[i] == (zeros(z + 1) + y.skip(z + 1 as int))[i] by {
                if 1 <= i < z + 1 {
                    assert(y[i] == r[i - 1]);
                    assert(r[i - 1] == (zeros(z) + r.skip(z as int))[i - 1]);
                }
            }
        }
    } else {
        assert(y.skip(0) =~= y);
    }
}

/// A number written in shortest form is written back exactly as it was read.
pub proof fn lemma_shortest_text_round_trip(t: Seq<char>)
    requires
        is_shortest_text(t),
    ensures
        parsed(t)->0.text() == t,
{
    let d = parsed(t)->0;
    let u = unsigned_part(t);
    let k = dot_index(u);
    let whole = whole_part(t);
    let frac = frac_part(t);
    let x = whole + frac;
    let m = digits_value(x);
    let s = frac.len();
    assert(d.mantissa == m && d.scale == s);
    // The fraction ends in a nonzero digit, so the number is already normal.
    if s > 0 {
        assert(x.drop_last() =~= whole + frac.drop_last());
        assert(x.last() == frac.last());
        lemma_digit_char_value(frac.last());
        let dl = digit_value(frac.last());
        assert(m == digits_value(x.drop_last()) * 10 + dl);
        assert(m % 10 == dl) by (nonlinear_arith)
            requires
                m == digits_value(x.drop_last()) * 10 + dl,
                dl < 10;
    }
    assert(normal_form(m, s) == (m, s));
    // The unsigned part is the whole part, then the point and the fraction.
    if has_point(t) {
        lemma_dot_found(u);
        assert(u =~= whole + seq!['.'] + frac);
    } else {
        lemma_dot_index_bound(u);
        assert(u =~= whole);
    }
    if s == 0 {
        assert(x =~= whole);
        lemma_text_of_digits(whole);
        assert(fixed_text(m, s) == whole);
    } else if whole[0] != '0' {
        assert(all_digits(x)) by {
            assert forall|i: int| 0 <= i < x.len() implies is_digit(#[trigger] x[i]) by {
                if i < whole.len() {
                    assert(x[i] == whole[i]);
                } else {
                    assert(x[i] == frac[i - whole.len()]);
                }
            }
        }
        lemma_text_of_digits(x);
        assert(x.take(x.len() - s) =~= whole);
        assert(x.skip(x.len() - s) =~= frac);
        assert(fixed_text(m, s) =~= whole + seq!['.'] + frac);
    } else {
        assert(whole =~= seq!['0']);
        assert(x =~= zeros(1) + frac);
        lemma_leading_zeros(1, frac);
        lemma_split_leading_zeros(frac);
        let z = leading_zeros(frac);
        let w = frac.skip(z as int);
        lemma_leading_zeros(z, w);
        assert(all_digits(w)) by {
            assert forall|i: int| 0 <= i < w.len() implies is_digit(#[trigger] w[i]) by {
                assert(w[i] == frac[i + z]);
            }
        }
        lemma_text_of_digits(w);
        assert(nat_text(m) == w);
        assert(zeros((s - w.len()) as nat) =~= zeros(z));
        assert(fixed_text(m, s) =~= seq!['0', '.'] + frac);
    }
    if is_negative_text(t) {
        assert(t =~= seq!['-'] + u);
    }
    assert(d.text() =~= t);
}

} // verus!
