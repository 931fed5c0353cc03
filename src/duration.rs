//! ISO 8601 durations of the form `PT[<hours>H][<minutes>M][<seconds>S]`, each
//! part a decimal number, as the API writes run times.

use vstd::prelude::*;

verus! {

/// A character of a decimal number: a digit or the decimal point.
pub open spec fn is_num_char(c: char) -> bool {
    ('0' <= c && c <= '9') || c == '.'
}

/// The end of the run of number characters that starts at `p`.
pub open spec fn num_run(s: Seq<char>, p: int) -> int
    decreases s.len() - p,
{
    if 0 <= p < s.len() && is_num_char(s[p]) {
        num_run(s, p + 1)
    } else {
        p
    }
}

/// The optional part with unit `u` at position `p`: its number text (empty
/// when the part is absent) and the position after it.
pub open spec fn part(s: Seq<char>, p: int, u: char) -> (Seq<char>, int) {
    let q = num_run(s, p);
    if q > p && q < s.len() && s[q] == u {
        (s.subrange(p, q), q + 1)
    } else {
        (Seq::empty(), p)
    }
}

/// The hour, minute and second texts of a duration, if `s` has the form.
pub open spec fn duration_fields(s: Seq<char>) -> Option<(Seq<char>, Seq<char>, Seq<char>)> {
    if s.len() >= 2 && s[0] == 'P' && s[1] == 'T' {
        let (h, p1) = part(s, 2, 'H');
        let (m, p2) = part(s, p1, 'M');
        let (sec, p3) = part(s, p2, 'S');
        if p3 == s.len() {
            Some((h, m, sec))
        } else {
            None
        }
    } else {
        None
    }
}

/// The number of decimal points in `t`.
pub open spec fn dot_count(t: Seq<char>) -> nat
    decreases t.len(),
{
    if t.len() == 0 {
        0
    } else {
        dot_count(t.drop_last()) + if t.last() == '.' {
            1nat
        } else {
            0nat
        }
    }
}

/// The number of digits in `t`.
pub open spec fn digit_count(t: Seq<char>) -> nat
    decreases t.len(),
{
    if t.len() == 0 {
        0
    } else {
        digit_count(t.drop_last()) + if t.last() == '.' {
            0nat
        } else {
            1nat
        }
    }
}

/// The digits of `t` read as one integer, the point left out.
pub open spec fn decimal_digits(t: Seq<char>) -> nat
    decreases t.len(),
{
    if t.len() == 0 {
        0
    } else if t.last() == '.' {
        decimal_digits(t.drop_last())
    } else {
        10 * decimal_digits(t.drop_last()) + (t.last() as nat - '0' as nat) as nat
    }
}

/// The number of digits after the decimal point of `t`.
pub open spec fn decimal_scale(t: Seq<char>) -> nat
    decreases t.len(),
{
    if t.len() == 0 || t.last() == '.' {
        0
    } else if dot_count(t.drop_last()) > 0 {
        decimal_scale(t.drop_last()) + 1
    } else {
        0
    }
}

/// A number text of a part: absent, or digits with at most one point.
pub open spec fn valid_number(t: Seq<char>) -> bool {
    t.len() == 0 || (dot_count(t) <= 1 && digit_count(t) >= 1)
}

/// Ten to the power `n`.
pub open spec fn pow10(n: nat) -> nat
    decreases n,
{
    if n == 0 {
        1
    } else {
        10 * pow10((n - 1) as nat)
    }
}

/// The largest of three numbers.
pub open spec fn max3(a: nat, b: nat, c: nat) -> nat {
    let ab = if a >= b {
        a
    } else {
        b
    };
    if ab >= c {
        ab
    } else {
        c
    }
}

/// The whole nanoseconds in `h` hours, `m` minutes and `s` seconds, each a
/// decimal text: the exact sum over a common power of ten, rounded down.
pub open spec fn duration_nanos(h: Seq<char>, m: Seq<char>, s: Seq<char>) -> nat {
    let k = max3(decimal_scale(h), decimal_scale(m), decimal_scale(s));
    ((3600 * decimal_digits(h) * pow10((k - decimal_scale(h)) as nat) + 60 * decimal_digits(m)
        * pow10((k - decimal_scale(m)) as nat) + decimal_digits(s) * pow10(
        (k - decimal_scale(s)) as nat,
    )) * pow10(9)) / pow10(k)
}

/// The longest number text of a part that `parse_duration` takes.
pub const MAX_PART_LEN: usize = 12;

proof fn lemma_pow10_pos(n: nat)
    ensures
        pow10(n) >= 1,
    decreases n,
{
    if n > 0 {
        lemma_pow10_pos((n - 1) as nat);
    }
}

proof fn lemma_pow10_mono(a: nat, b: nat)
    requires
        a <= b,
    ensures
        pow10(a) <= pow10(b),
    decreases b,
{
    if a < b {
        lemma_pow10_mono(a, (b - 1) as nat);
        lemma_pow10_pos((b - 1) as nat);
    }
}

proof fn lemma_pow10_values()
    ensures
        pow10(9) == 1_000_000_000,
        pow10(11) == 100_000_000_000,
        pow10(12) == 1_000_000_000_000,
{
    assert(pow10(0) == 1);
    assert(pow10(1) == 10);
    assert(pow10(2) == 100);
    assert(pow10(3) == 1000);
    assert(pow10(4) == 10_000);
    assert(pow10(5) == 100_000);
    assert(pow10(6) == 1_000_000);
    assert(pow10(7) == 10_000_000);
    assert(pow10(8) == 100_000_000);
    assert(pow10(9) == 1_000_000_000);
    assert(pow10(10) == 10_000_000_000);
    assert(pow10(11) == 100_000_000_000);
    assert(pow10(12) == 1_000_000_000_000);
}

proof fn lemma_counts(t: Seq<char>)
    requires
        forall|j: int| 0 <= j < t.len() ==> is_num_char(#[trigger] t[j]),
    ensures
        decimal_digits(t) < pow10(digit_count(t)),
        digit_count(t) <= t.len(),
        decimal_scale(t) <= digit_count(t),
    decreases t.len(),
{
    if t.len() > 0 {
        lemma_counts(t.drop_last());
        if t.last() != '.' {
            let d = decimal_digits(t.drop_last());
            let p = pow10(digit_count(t.drop_last()));
            assert(10 * d + 9 < 10 * p) by (nonlinear_arith)
                requires
                    d < p,
            ;
        }
    }
}

/// Reads the number text `t` of a part: its digits as an integer, its number
/// of decimals, and whether it is valid.
fn read_number(t: &Vec<char>) -> (r: (u64, usize, bool))
    requires
        t@.len() <= MAX_PART_LEN,
        forall|j: int| 0 <= j < t@.len() ==> is_num_char(#[trigger] t@[j]),
    ensures
        r.2 == valid_number(t@),
        r.0 == decimal_digits(t@),
        r.1 == decimal_scale(t@),
{
    let mut digits: u64 = 0;
    let mut scale: usize = 0;
    let mut dots: usize = 0;
    let mut count: usize = 0;
    let mut i: usize = 0;
    while i < t.len()
        invariant
            i <= t@.len() <= MAX_PART_LEN,
            forall|j: int| 0 <= j < t@.len() ==> is_num_char(#[trigger] t@[j]),
            digits == decimal_digits(t@.take(i as int)),
            scale == decimal_scale(t@.take(i as int)),
            dots == dot_count(t@.take(i as int)),
            count == digit_count(t@.take(i as int)),
            dots <= i,
            count <= i,
            scale <= i,
        decreases t@.len() - i,
    {
        proof {
            assert(t@.take(i + 1).drop_last() =~= t@.take(i as int));
            assert(forall|j: int| 0 <= j < i ==> t@.take(i as int)[j] == t@[j]);
            lemma_counts(t@.take(i as int));
            lemma_pow10_mono(digit_count(t@.take(i as int)), 11);
            lemma_pow10_values();
        }
        let c = t[i];
        assert(is_num_char(t@[i as int]));
        assert(t@.take(i + 1).last() == c);
        if c == '.' {
            dots = dots + 1;
            scale = 0;
        } else {
            digits = 10 * digits + ((c as u32) - ('0' as u32)) as u64;
            count = count + 1;
            if dots > 0 {
                scale = scale + 1;
            }
        }
        i += 1;
    }
    proof {
        assert(t@.take(t@.len() as int) =~= t@);
    }
    (digits, scale, t.len() == 0 || (dots <= 1 && count >= 1))
}

/// The whole nanoseconds of the duration written `s`: none when `s` does not
/// have the form, a part is not a valid number, or a part's number text is
/// longer than `MAX_PART_LEN`.
pub open spec fn duration_value(s: Seq<char>) -> Option<nat> {
    match duration_fields(s) {
        Some((h, m, sec)) => if h.len() <= MAX_PART_LEN && m.len() <= MAX_PART_LEN && sec.len()
            <= MAX_PART_LEN && valid_number(h) && valid_number(m) && valid_number(sec) {
            Some(duration_nanos(h, m, sec))
        } else {
            None
        },
        None => None,
    }
}

proof fn lemma_run_chars(s: Seq<char>, p: int)
    requires
        0 <= p <= s.len(),
    ensures
        p <= num_run(s, p) <= s.len(),
        forall|j: int| p <= j < num_run(s, p) ==> is_num_char(#[trigger] s[j]),
    decreases s.len() - p,
{
    if p < s.len() && is_num_char(s[p]) {
        lemma_run_chars(s, p + 1);
    }
}

/// The end of the run of number characters from `p`.
fn scan_run(s: &Vec<char>, p: usize) -> (q: usize)
    requires
        p <= s@.len(),
    ensures
        q == num_run(s@, p as int),
{
    let mut q = p;
    while q < s.len() && (('0' <= s[q] && s[q] <= '9') || s[q] == '.')
        invariant
            p <= q <= s@.len(),
            num_run(s@, p as int) == num_run(s@, q as int),
        decreases s@.len() - q,
    {
        q = q + 1;
    }
    q
}

/// The part with unit `u` at `p`: its number text and the position after it.
fn read_part(s: &Vec<char>, p: usize, u: char) -> (r: (Vec<char>, usize))
    requires
        p <= s@.len(),
    ensures
        r.0@ == part(s@, p as int, u).0,
        r.1 == part(s@, p as int, u).1,
        r.1 <= s@.len(),
        forall|j: int| 0 <= j < r.0@.len() ==> is_num_char(#[trigger] r.0@[j]),
{
    let q = scan_run(s, p);
    proof {
        lemma_run_chars(s@, p as int);
    }
    if q > p && q < s.len() && s[q] == u {
        let mut t: Vec<char> = Vec::new();
        let mut i = p;
        while i < q
            invariant
                p <= i <= q,
                q < s@.len(),
                t@ == s@.subrange(p as int, i as int),
            decreases q - i,
        {
            t.push(s[i]);
            i = i + 1;
            proof {
                assert(t@ =~= s@.subrange(p as int, i as int));
            }
        }
        (t, q + 1)
    } else {
        (Vec::new(), p)
    }
}

/// Ten to the power `n`, for `n` up to 12.
fn pow10_u128(n: usize) -> (r: u128)
    requires
        n <= 12,
    ensures
        r == pow10(n as nat),
        r <= 1_000_000_000_000,
{
    let mut r: u128 = 1;
    let mut i: usize = 0;
    while i < n
        invariant
            i <= n <= 12,
            r == pow10(i as nat),
        decreases n - i,
    {
        proof {
            lemma_pow10_mono(i as nat, 11);
            lemma_pow10_values();
        }
        r = r * 10;
        i = i + 1;
    }
    proof {
        lemma_pow10_mono(n as nat, 12);
        lemma_pow10_values();
    }
    r
}

/// Parses an ISO 8601 duration `PT[<h>H][<m>M][<s>S]` into whole seconds and
/// the nanoseconds beyond them. None when the text does not have that form, a
/// number is malformed or longer than `MAX_PART_LEN` characters, or the
/// seconds do not fit in a `u64`.
pub fn parse_duration(text: &str) -> (r: Option<(u64, u32)>)
    ensures
        r is Some <==> (duration_value(text@) is Some && duration_value(text@).unwrap() / 1_000_000_000 <= u64::MAX),
        r matches Some(p) ==> (p.0 == duration_value(text@).unwrap() / 1_000_000_000 && p.1 == duration_value(text@).unwrap() % 1_000_000_000),
{
    let n = text.unicode_len();
    let mut s: Vec<char> = Vec::new();
    let mut i: usize = 0;
    while i < n
        invariant
            n == text@.len(),
            i <= n,
            s@ == text@.take(i as int),
        decreases n - i,
    {
        s.push(text.get_char(i));
        i = i + 1;
        proof {
            assert(s@ =~= text@.take(i as int));
        }
    }
    proof {
        assert(s@ =~= text@);
    }
    if s.len() < 2 || s[0] != 'P' || s[1] != 'T' {
        return None;
    }
    let (h, p1) = read_part(&s, 2, 'H');
    let (m, p2) = read_part(&s, p1, 'M');
    let (sec, p3) = read_part(&s, p2, 'S');
    if p3 != s.len() {
        return None;
    }
    if h.len() > MAX_PART_LEN || m.len() > MAX_PART_LEN || sec.len() > MAX_PART_LEN {
        return None;
    }
    let (dh, sh, vh) = read_number(&h);
    let (dm, sm, vm) = read_number(&m);
    let (ds, ss, vs) = read_number(&sec);
    if !(vh && vm && vs) {
        return None;
    }
    proof {
        lemma_counts(h@);
        lemma_counts(m@);
        lemma_counts(sec@);
        lemma_pow10_mono(digit_count(h@), 12);
        lemma_pow10_mono(digit_count(m@), 12);
        lemma_pow10_mono(digit_count(sec@), 12);
        lemma_pow10_values();
    }
    let k = if sh >= sm { sh } else { sm };
    let k = if k >= ss { k } else { ss };
    let ph = pow10_u128(k - sh);
    let pm = pow10_u128(k - sm);
    let ps = pow10_u128(k - ss);
    let dh = dh as u128;
    let dm = dm as u128;
    let ds = ds as u128;
    assert(3600 * dh * ph <= 3600 * 1_000_000_000_000 * 1_000_000_000_000) by (nonlinear_arith)
        requires
            dh < 1_000_000_000_000,
            ph <= 1_000_000_000_000,
    ;
    assert(60 * dm * pm <= 60 * 1_000_000_000_000 * 1_000_000_000_000) by (nonlinear_arith)
        requires
            dm < 1_000_000_000_000,
            pm <= 1_000_000_000_000,
    ;
    assert(ds * ps <= 1_000_000_000_000 * 1_000_000_000_000) by (nonlinear_arith)
        requires
            ds < 1_000_000_000_000,
            ps <= 1_000_000_000_000,
    ;
    let sum = 3600 * dh * ph + 60 * dm * pm + ds * ps;
    let pk = pow10_u128(k);
    proof {
        lemma_pow10_pos(k as nat);
    }
    let total = sum * 1_000_000_000 / pk;
    let secs = total / 1_000_000_000;
    if secs > u64::MAX as u128 {
        return None;
    }
    Some((secs as u64, (total % 1_000_000_000) as u32))
}

} // verus!
