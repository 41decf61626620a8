//! The whole part of a number written in decimal notation (an optional minus
//! sign, digits with an optional point, an optional exponent), saturated into
//! `i32`: what casting the number's value to `i32` gives.

use vstd::prelude::*;

verus! {

pub open spec fn digit_of(c: char) -> nat {
    if '0' <= c && c <= '9' {
        (c as int - '0' as int) as nat
    } else {
        0
    }
}

/// The value of a string of decimal digits.
pub open spec fn digits_value(s: Seq<char>) -> nat
    decreases s.len(),
{
    if s.len() == 0 {
        0
    } else {
        digits_value(s.drop_last()) * 10 + digit_of(s.last())
    }
}

pub open spec fn pow10(n: nat) -> nat
    decreases n,
{
    if n == 0 {
        1
    } else {
        10 * pow10((n - 1) as nat)
    }
}

/// The smaller of a value and a cap.
pub open spec fn capped(v: nat, c: nat) -> nat {
    if v < c {
        v
    } else {
        c
    }
}

/// The position of the first `a` or `b`, or the length when there is none.
pub open spec fn first_of(s: Seq<char>, a: char, b: char) -> int {
    if exists|i: int|
        0 <= i < s.len() && (s[i] == a || s[i] == b) && (forall|j: int| 0 <= j < i ==> s[j] != a && s[j] != b) {
        choose|i: int|
            0 <= i < s.len() && (s[i] == a || s[i] == b) && (forall|j: int| 0 <= j < i ==> s[j] != a && s[j] != b)
    } else {
        s.len() as int
    }
}

pub open spec fn is_negative(t: Seq<char>) -> bool {
    t.len() > 0 && t[0] == '-'
}

/// The text after the sign.
pub open spec fn unsigned_part(t: Seq<char>) -> Seq<char> {
    if is_negative(t) {
        t.drop_first()
    } else {
        t
    }
}

/// The digits and point before the exponent.
pub open spec fn mantissa(b: Seq<char>) -> Seq<char> {
    b.take(first_of(b, 'e', 'E'))
}

/// The text after the exponent mark, or nothing.
pub open spec fn exponent_text(b: Seq<char>) -> Seq<char> {
    let e = first_of(b, 'e', 'E');
    if e < b.len() {
        b.skip(e + 1)
    } else {
        Seq::empty()
    }
}

/// The digits of an integer with an optional sign.
pub open spec fn unsigned_digits(x: Seq<char>) -> Seq<char> {
    if x.len() > 0 && (x[0] == '-' || x[0] == '+') {
        x.drop_first()
    } else {
        x
    }
}

/// An integer with an optional sign.
pub open spec fn signed_value(x: Seq<char>) -> int {
    if x.len() > 0 && x[0] == '-' {
        -(digits_value(unsigned_digits(x)) as int)
    } else {
        digits_value(unsigned_digits(x)) as int
    }
}

/// The mantissa's digits without the point.
pub open spec fn digits_of(m: Seq<char>) -> Seq<char> {
    let d = first_of(m, '.', '.');
    if d < m.len() {
        m.take(d) + m.skip(d + 1)
    } else {
        m
    }
}

/// The whole part of the digits with the point after the first `p` of them.
pub open spec fn whole_of(ds: Seq<char>, p: int) -> nat {
    if p <= 0 {
        0
    } else if p <= ds.len() {
        digits_value(ds.take(p))
    } else {
        digits_value(ds) * pow10((p - ds.len()) as nat)
    }
}

/// The whole part of the number's magnitude.
pub open spec fn whole_part(t: Seq<char>) -> nat {
    let b = unsigned_part(t);
    let m = mantissa(b);
    whole_of(digits_of(m), first_of(m, '.', '.') + signed_value(exponent_text(b)))
}

/// The number truncated toward zero and saturated into `i32`.
pub open spec fn number_text_i32(t: Seq<char>) -> i32 {
    let w = whole_part(t);
    if is_negative(t) {
        if w >= 0x8000_0000 {
            i32::MIN
        } else {
            (-(w as int)) as i32
        }
    } else {
        if w > 0x7fff_ffff {
            i32::MAX
        } else {
            w as i32
        }
    }
}

proof fn lemma_first_of(s: Seq<char>, a: char, b: char, i: int)
    requires
        0 <= i <= s.len(),
        forall|j: int| 0 <= j < i ==> s[j] != a && s[j] != b,
        i < s.len() ==> (s[i] == a || s[i] == b),
    ensures
        first_of(s, a, b) == i,
{
    if i < s.len() {
        assert(0 <= i < s.len() && (s[i] == a || s[i] == b) && (forall|j: int| 0 <= j < i ==> s[j] != a && s[j] != b));
        let c = choose|c: int|
            0 <= c < s.len() && (s[c] == a || s[c] == b) && (forall|j: int| 0 <= j < c ==> s[j] != a && s[j] != b);
        if c < i {
            assert(s[c] != a && s[c] != b);
        }
        if c > i {
            assert(s[i] != a && s[i] != b);
        }
    } else {
        if exists|c: int|
            0 <= c < s.len() && (s[c] == a || s[c] == b) && (forall|j: int| 0 <= j < c ==> s[j] != a && s[j] != b) {
            let c = choose|c: int|
                0 <= c < s.len() && (s[c] == a || s[c] == b) && (forall|j: int| 0 <= j < c ==> s[j] != a && s[j] != b);
            assert(s[c] != a && s[c] != b);
        }
    }
}

proof fn lemma_cap_step(a: nat, d: nat, c: nat)
    requires
        c > 0,
    ensures
        capped(capped(a, c) * 10 + d, c) == capped(a * 10 + d, c),
{
}

proof fn lemma_pow10_mono(n: nat, m: nat)
    requires
        n <= m,
    ensures
        1 <= pow10(n) <= pow10(m),
    decreases m,
{
    if m > 0 {
        if n < m {
            lemma_pow10_mono(n, (m - 1) as nat);
        } else {
            lemma_pow10_mono((n - 1) as nat, (m - 1) as nat);
        }
    }
}

/// Far enough past the digits, or at or before their start, the point gives
/// the same capped whole part wherever it stands.
proof fn lemma_whole_far(ds: Seq<char>, p: int, q: int)
    requires
        (p >= ds.len() + 10 && q >= ds.len() + 10) || (p <= 0 && q <= 0),
    ensures
        capped(whole_of(ds, p), 0x8000_0000) == capped(whole_of(ds, q), 0x8000_0000),
{
    if p > 0 {
        let v = digits_value(ds);
        assert(pow10(10) == 10000000000nat) by {
            reveal_with_fuel(pow10, 11);
        }
        lemma_pow10_mono(10, (p - ds.len()) as nat);
        lemma_pow10_mono(10, (q - ds.len()) as nat);
        let a = pow10((p - ds.len()) as nat);
        let b = pow10((q - ds.len()) as nat);
        if v > 0 {
            assert(v * a >= a) by (nonlinear_arith)
                requires
                    v >= 1,
                    a >= 0,
            ;
            assert(v * b >= b) by (nonlinear_arith)
                requires
                    v >= 1,
                    b >= 0,
            ;
        } else {
            assert(v * a == 0) by (nonlinear_arith)
                requires
                    v == 0,
            ;
            assert(v * b == 0) by (nonlinear_arith)
                requires
                    v == 0,
            ;
        }
    }
}

/// The position, within `t[from..to]`, of the first `a` or `b`.
fn find_first(t: &str, from: usize, to: usize, a: char, b: char) -> (i: usize)
    requires
        from <= to <= t@.len(),
    ensures
        from <= i <= to,
        first_of(t@.subrange(from as int, to as int), a, b) == i - from,
{
    let mut i: usize = from;
    while i < to && t.get_char(i) != a && t.get_char(i) != b
        invariant
            from <= i <= to,
            to <= t@.len(),
            forall|j: int| from <= j < i ==> t@[j] != a && t@[j] != b,
        decreases to - i,
    {
        i = i + 1;
    }
    proof {
        let s = t@.subrange(from as int, to as int);
        assert forall|j: int| 0 <= j < i - from implies s[j] != a && s[j] != b by {
            assert(s[j] == t@[from + j]);
        }
        lemma_first_of(s, a, b, i - from);
    }
    i
}

/// The digits of `t[from..]` read as a number, capped at `cap`.
fn digits_capped(t: &str, from: usize, cap: u128) -> (v: u128)
    requires
        from <= t@.len(),
        0 < cap <= 0x400000000000000000,
    ensures
        v == capped(digits_value(t@.subrange(from as int, t@.len() as int)), cap as nat),
{
    let n = t.unicode_len();
    let mut k: usize = from;
    let mut v: u128 = 0;
    proof {
        assert(t@.subrange(from as int, from as int) =~= Seq::<char>::empty());
    }
    while k < n
        invariant
            from <= k <= n,
            n == t@.len(),
            0 < cap <= 0x400000000000000000,
            v == capped(digits_value(t@.subrange(from as int, k as int)), cap as nat),
        decreases n - k,
    {
        let c = t.get_char(k);
        let dg: u128 = if '0' <= c && c <= '9' {
            (c as u32 - '0' as u32) as u128
        } else {
            0
        };
        proof {
            let s1 = t@.subrange(from as int, k + 1);
            assert(s1.drop_last() =~= t@.subrange(from as int, k as int));
            lemma_cap_step(digits_value(t@.subrange(from as int, k as int)), dg as nat, cap as nat);
        }
        let next = v * 10 + dg;
        v = if next < cap {
            next
        } else {
            cap
        };
        k = k + 1;
    }
    v
}

/// Where digit `i` of the mantissa stands in the text: after the sign, and
/// one further once past the point.
spec fn digit_pos(start: int, dot: int, i: int) -> int {
    if i < dot {
        start + i
    } else {
        start + i + 1
    }
}

/// Digit `i` of the mantissa stands where `digit_pos` says.
spec fn digit_at(t: Seq<char>, ds: Seq<char>, start: int, dot: int, i: int) -> bool {
    digit_pos(start, dot, i) < t.len() && ds[i] == t[digit_pos(start, dot, i)]
}

/// The value of the first `lim` digits of `ds`, capped, where digit `i`
/// stands at `start + i` before the point and one further after it.
fn leading_capped(t: &str, start: usize, dot: usize, lim: usize, ds: Ghost<Seq<char>>) -> (acc: u64)
    requires
        t@.len() <= usize::MAX,
        lim <= ds@.len(),
        forall|i: int| 0 <= i < lim ==> #[trigger] digit_at(t@, ds@, start as int, dot as int, i),
    ensures
        acc == capped(digits_value(ds@.take(lim as int)), 0x8000_0000),
{
    let cap: u64 = 0x8000_0000;
    let mut acc: u64 = 0;
    let mut i: usize = 0;
    proof {
        assert(ds@.take(0) =~= Seq::<char>::empty());
    }
    while i < lim
        invariant
            i <= lim <= ds@.len(),
            t@.len() <= usize::MAX,
            cap == 0x8000_0000,
            forall|q: int| 0 <= q < lim ==> #[trigger] digit_at(t@, ds@, start as int, dot as int, q),
            acc == capped(digits_value(ds@.take(i as int)), cap as nat),
        decreases lim - i,
    {
        proof {
            assert(digit_at(t@, ds@, start as int, dot as int, i as int));
        }
        let pos: usize = if i < dot {
            start + i
        } else {
            start + i + 1
        };
        let c = t.get_char(pos);
        let dg: u64 = if '0' <= c && c <= '9' {
            (c as u32 - '0' as u32) as u64
        } else {
            0
        };
        proof {
            assert(ds@.take(i + 1).drop_last() =~= ds@.take(i as int));
            lemma_cap_step(digits_value(ds@.take(i as int)), dg as nat, cap as nat);
        }
        let next = acc * 10 + dg;
        acc = if next < cap {
            next
        } else {
            cap
        };
        i = i + 1;
    }
    acc
}

/// A capped value times a power of ten, capped.
fn scaled_capped(acc: u64, zeros: i128, Ghost(v): Ghost<nat>) -> (r: u64)
    requires
        acc == capped(v, 0x8000_0000),
        zeros >= 0,
    ensures
        r == capped(v * pow10(zeros as nat), 0x8000_0000),
{
    let cap: u64 = 0x8000_0000;
    let ghost total = zeros as nat;
    let mut acc = acc;
    let mut z: i128 = zeros;
    proof {
        assert(pow10(0) == 1);
        assert(v * 1 == v);
    }
    while z > 0 && acc != 0 && acc < cap
        invariant
            0 <= z <= total,
            cap == 0x8000_0000,
            acc == capped(v * pow10((total - z) as nat), cap as nat),
        decreases z,
    {
        proof {
            let j = (total - z) as nat;
            assert(pow10(j + 1) == 10 * pow10(j));
            assert(v * pow10(j + 1) == (v * pow10(j)) * 10) by (nonlinear_arith)
                requires
                    pow10(j + 1) == 10 * pow10(j),
            ;
            lemma_cap_step(v * pow10(j), 0, cap as nat);
        }
        let next = acc * 10;
        acc = if next < cap {
            next
        } else {
            cap
        };
        z = z - 1;
    }
    proof {
        let j = (total - z) as nat;
        lemma_pow10_mono(j, total);
        if z > 0 {
            if acc == 0 {
                assert(v == 0) by (nonlinear_arith)
                    requires
                        v * pow10(j) == 0,
                        pow10(j) >= 1,
                ;
                assert(v * pow10(total) == 0) by (nonlinear_arith)
                    requires
                        v == 0,
                ;
            } else {
                assert(v * pow10(total) >= v * pow10(j)) by (nonlinear_arith)
                    requires
                        pow10(total) >= pow10(j),
                ;
            }
        }
    }
    acc
}

/// Where the point stands in the digits, and where each digit stands in the
/// text.
proof fn lemma_digit_layout(t: Seq<char>, start: int, e: int, d: int)
    requires
        0 <= start <= d <= e <= t.len(),
        first_of(t.subrange(start, e), '.', '.') == d - start,
    ensures
        digits_of(t.subrange(start, e)).len() == (if d < e { e - start - 1 } else { e - start }),
        forall|i: int|
            0 <= i < digits_of(t.subrange(start, e)).len() ==> #[trigger] digit_at(
                t,
                digits_of(t.subrange(start, e)),
                start,
                d - start,
                i,
            ),
{
    let m = t.subrange(start, e);
    let ds = digits_of(m);
    let dot = d - start;
    if d < e {
        assert(ds == m.take(dot) + m.skip(dot + 1));
    } else {
        assert(ds == m);
    }
    assert forall|i: int| 0 <= i < ds.len() implies #[trigger] digit_at(t, ds, start, dot, i) by {
        if d < e {
            if i < dot {
                assert(ds[i] == m[i]);
            } else {
                assert(ds[i] == m[i + 1]);
            }
        } else {
            assert(ds[i] == m[i]);
        }
    }
}

/// With the exponent capped far beyond the digits, the capped whole part is
/// the one the exact exponent gives.
proof fn lemma_point(ds: Seq<char>, dot: int, dv: nat, eneg: bool, ev: nat, n: int)
    requires
        ev == capped(dv, 0x400000000000000000),
        0 <= dot <= n,
        ds.len() <= n <= 0x1_0000_0000_0000_0000,
    ensures
        capped(whole_of(ds, dot + (if eneg { -(dv as int) } else { dv as int })), 0x8000_0000) == capped(
            whole_of(ds, dot + (if eneg { -(ev as int) } else { ev as int })),
            0x8000_0000,
        ),
{
    if ev >= 0x400000000000000000 {
        lemma_whole_far(
            ds,
            dot + (if eneg { -(dv as int) } else { dv as int }),
            dot + (if eneg { -(ev as int) } else { ev as int }),
        );
    }
}

/// Where the parts of a number's text stand: the sign, the exponent mark,
/// the point, and the exponent's digits, with whether the exponent is
/// negative.
fn number_layout(t: &str) -> (r: (usize, usize, usize, usize, bool))
    ensures
        ({
            let (start, e, d, k, eneg) = r;
            let b = unsigned_part(t@);
            &&& start == (if is_negative(t@) { 1int } else { 0int })
            &&& start <= d <= e <= t@.len()
            &&& k <= t@.len()
            &&& b == t@.subrange(start as int, t@.len() as int)
            &&& mantissa(b) == t@.subrange(start as int, e as int)
            &&& first_of(t@.subrange(start as int, e as int), '.', '.') == d - start
            &&& signed_value(exponent_text(b)) == (if eneg {
                -(digits_value(t@.subrange(k as int, t@.len() as int)) as int)
            } else {
                digits_value(t@.subrange(k as int, t@.len() as int)) as int
            })
        }),
{
    let n = t.unicode_len();
    let neg = n > 0 && t.get_char(0) == '-';
    let start: usize = if neg {
        1
    } else {
        0
    };
    let ghost b = unsigned_part(t@);
    proof {
        assert(b =~= t@.subrange(start as int, n as int));
    }
    let e = find_first(t, start, n, 'e', 'E');
    let d = find_first(t, start, e, '.', '.');
    proof {
        assert(mantissa(b) =~= t@.subrange(start as int, e as int));
    }
    let ghost x = exponent_text(b);
    let mut k: usize = if e < n {
        e + 1
    } else {
        n
    };
    let mut eneg = false;
    if k < n && (t.get_char(k) == '-' || t.get_char(k) == '+') {
        eneg = t.get_char(k) == '-';
        k = k + 1;
    }
    proof {
        if e < n {
            assert(x =~= t@.subrange(e + 1, n as int));
        } else {
            assert(x =~= t@.subrange(k as int, n as int));
        }
        assert(unsigned_digits(x) =~= t@.subrange(k as int, n as int));
    }
    (start, e, d, k, eneg)
}

/// The whole part of a number written as serde_json writes numbers,
/// saturated into `i32`.
pub fn number_text_to_i32(t: &str) -> (r: i32)
    ensures
        r == number_text_i32(t@),
{
    let n = t.unicode_len();
    let (start, e, d, k, eneg) = number_layout(t);
    let neg = start == 1;
    let ecap: u128 = 0x400000000000000000;
    let ev = digits_capped(t, k, ecap);
    let exp_c: i128 = if eneg {
        -(ev as i128)
    } else {
        ev as i128
    };
    let dot: usize = d - start;
    let p_c: i128 = dot as i128 + exp_c;
    let dlen: usize = if d < e {
        e - start - 1
    } else {
        e - start
    };
    let ghost m = t@.subrange(start as int, e as int);
    let ghost ds = digits_of(m);
    let ghost dv = digits_value(t@.subrange(k as int, n as int));
    proof {
        lemma_digit_layout(t@, start as int, e as int, d as int);
        lemma_point(ds, dot as int, dv, eneg, ev as nat, n as int);
    }
    let mut acc: u64 = 0;
    if p_c > 0 {
        let lim: usize = if p_c < dlen as i128 {
            p_c as usize
        } else {
            dlen
        };
        acc = leading_capped(t, start, dot, lim, Ghost(ds));
        if p_c > dlen as i128 {
            proof {
                assert(ds.take(dlen as int) =~= ds);
            }
            acc = scaled_capped(acc, p_c - dlen as i128, Ghost(digits_value(ds)));
        }
    }
    proof {
        assert(acc == capped(whole_of(ds, p_c as int), 0x8000_0000));
    }
    if neg {
        if acc >= 0x8000_0000 {
            i32::MIN
        } else {
            -(acc as i32)
        }
    } else {
        if acc > 0x7fff_ffff {
            i32::MAX
        } else {
            acc as i32
        }
    }
}

} // verus!
