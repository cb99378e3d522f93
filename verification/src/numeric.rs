//! Numeric comparison of JSON numbers as IEEE-754 doubles, in integer
//! arithmetic.
//!
//! A number compares as the double it converts to: an integer rounds to the
//! nearest double (ties to even), a float is the double its bits encode.  Two
//! doubles compare equal when they denote the same value; positive and negative
//! zero are equal, and a not-a-number equals nothing.
use crate::json::{JsonNumber, NumberV};
use vstd::arithmetic::div_mod::{lemma_div_denominator, lemma_fundamental_div_mod};
use vstd::arithmetic::power2::{lemma_pow2_unfold, pow2};
use vstd::prelude::*;

verus! {

/// The value of a double, with finite nonzero values as `±m·2^e`, `m` odd.
pub enum DoubleV {
    Zero,
    Finite { neg: bool, m: nat, e: int },
    Infinite { neg: bool },
    NotANumber,
}

/// `±m·2^e` in canonical form.
pub open spec fn canon(neg: bool, m: nat, e: int) -> DoubleV
    decreases m,
{
    if m == 0 {
        DoubleV::Zero
    } else if m % 2 == 0 {
        canon(neg, m / 2, e + 1)
    } else {
        DoubleV::Finite { neg, m, e }
    }
}

/// `2^53`: integers below it convert to doubles exactly.
pub open spec fn two53() -> nat {
    0x20_0000_0000_0000
}

/// How many low bits of `v` a double cannot hold.
pub open spec fn excess(v: nat) -> nat
    decreases v,
{
    if v < two53() {
        0
    } else {
        1 + excess(v / 2)
    }
}

/// The double nearest to `±v` (ties to even).
pub open spec fn int_double(neg: bool, v: nat) -> DoubleV {
    let k = excess(v);
    let p = pow2(k);
    let q = v / p;
    let r = v % p;
    let q2: nat = if r * 2 > p || (r * 2 == p && q % 2 == 1) {
        q + 1
    } else {
        q
    };
    canon(neg, q2, k as int)
}

/// The double that IEEE-754 bits encode.
pub open spec fn bits_double(b: u64) -> DoubleV {
    let neg = b >= 0x8000_0000_0000_0000u64;
    let ex = (b / 0x10_0000_0000_0000u64) % 2048;
    let f = b % 0x10_0000_0000_0000u64;
    if ex == 2047 {
        if f == 0 {
            DoubleV::Infinite { neg }
        } else {
            DoubleV::NotANumber
        }
    } else if ex == 0 {
        canon(neg, f as nat, -1074)
    } else {
        canon(neg, (f + 0x10_0000_0000_0000u64) as nat, ex - 1075)
    }
}

/// The double a JSON number converts to.
pub open spec fn number_double(n: NumberV) -> DoubleV {
    match n {
        NumberV::PosInt(u) => int_double(false, u as nat),
        NumberV::NegInt(i) => if i < 0 {
            int_double(true, (-i) as nat)
        } else {
            int_double(false, i as nat)
        },
        NumberV::Float(b, _) => bits_double(b),
    }
}

/// Double equality.
pub open spec fn double_eq(a: DoubleV, b: DoubleV) -> bool {
    !(a is NotANumber) && !(b is NotANumber) && a == b
}

/// Whether two JSON numbers compare equal as doubles.
pub open spec fn numbers_double_eq(a: NumberV, b: NumberV) -> bool {
    double_eq(number_double(a), number_double(b))
}

/// An executable double value in canonical form.
pub enum Double {
    Zero,
    Finite { neg: bool, m: u64, e: i64 },
    Infinite { neg: bool },
    NotANumber,
}

impl View for Double {
    type V = DoubleV;

    open spec fn view(&self) -> DoubleV {
        match *self {
            Double::Zero => DoubleV::Zero,
            Double::Finite { neg, m, e } => DoubleV::Finite { neg, m: m as nat, e: e as int },
            Double::Infinite { neg } => DoubleV::Infinite { neg },
            Double::NotANumber => DoubleV::NotANumber,
        }
    }
}

/// `±m·2^e` in canonical form.
fn canonical(neg: bool, m: u64, e: i64) -> (r: Double)
    requires
        -4000 <= e <= 4000,
    ensures
        r@ == canon(neg, m as nat, e as int),
{
    let ghost m0 = m;
    let ghost e0 = e;
    let mut m = m;
    let mut e = e;
    proof {
        vstd::arithmetic::power2::lemma2_to64();
        assert(pow2((e - e0) as nat) == 1);
        assert((m as nat) * pow2((e - e0) as nat) == m0 as nat);
    }
    while m != 0 && m % 2 == 0
        invariant
            canon(neg, m as nat, e as int) == canon(neg, m0 as nat, e0 as int),
            e0 <= e,
            -4000 <= e0 <= 4000,
            (m as nat) * pow2((e - e0) as nat) == m0 as nat,
        decreases m,
    {
        let ghost n = (e - e0) as nat;
        proof {
            if n >= 64 {
                if n > 64 {
                    vstd::arithmetic::power2::lemma_pow2_strictly_increases(64, n);
                }
                vstd::arithmetic::power2::lemma2_to64_rest();
                assert((m as nat) * pow2(n) >= pow2(n)) by (nonlinear_arith)
                    requires
                        m as nat >= 1,
                ;
            }
            lemma_pow2_unfold(n + 1);
            let h = (m / 2) as nat;
            assert(h * pow2(n + 1) == (m as nat) * pow2(n)) by (nonlinear_arith)
                requires
                    pow2(n + 1) == 2 * pow2(n),
                    m as nat == 2 * h,
            ;
        }
        m = m / 2;
        e = e + 1;
    }
    if m == 0 {
        Double::Zero
    } else {
        Double::Finite { neg, m, e }
    }
}

/// The double nearest to `±v` (ties to even).
fn int_to_double(neg: bool, v: u64) -> (r: Double)
    ensures
        r@ == int_double(neg, v as nat),
{
    let mut cur = v;
    let mut p: u64 = 1;
    let mut k: i64 = 0;
    proof {
        vstd::arithmetic::power2::lemma2_to64();
        assert(v as nat / 1 == v as nat);
    }
    while cur >= 0x20_0000_0000_0000u64
        invariant
            0 <= k <= 12,
            cur as nat == v as nat / pow2(k as nat),
            p as nat == pow2(k as nat),
            1 <= p <= 4096,
            excess(v as nat) == k + excess(cur as nat),
        decreases cur,
    {
        proof {
            lemma_fundamental_div_mod(v as int, p as int);
            let rem = (v as int) % (p as int);
            assert(rem >= 0) by {
                vstd::arithmetic::div_mod::lemma_mod_pos_bound(v as int, p as int);
            }
            assert((p as int) * 0x20_0000_0000_0000 <= v as int) by (nonlinear_arith)
                requires
                    v as int == (p as int) * (cur as int) + rem,
                    rem >= 0,
                    cur as int >= 0x20_0000_0000_0000,
                    p as int >= 1,
            ;
            assert((p as int) < 2048) by (nonlinear_arith)
                requires
                    (p as int) * 0x20_0000_0000_0000 <= v as int,
                    (v as int) < 0x1_0000_0000_0000_0000,
            ;
            if k >= 11 {
                if k > 11 {
                    vstd::arithmetic::power2::lemma_pow2_strictly_increases(11, k as nat);
                }
                vstd::arithmetic::power2::lemma2_to64();
                assert(false);
            }
            lemma_div_denominator(v as int, p as int, 2);
            lemma_pow2_unfold((k + 1) as nat);
            assert(excess(cur as nat) == 1 + excess((cur / 2) as nat));
        }
        cur = cur / 2;
        p = p * 2;
        k = k + 1;
    }
    proof {
        lemma_fundamental_div_mod(v as int, p as int);
        vstd::arithmetic::div_mod::lemma_mod_pos_bound(v as int, p as int);
        assert(excess(cur as nat) == 0);
        assert((p as int) * (cur as int) <= v as int);
    }
    let q = cur;
    let r = v - q * p;
    let q2: u64 = if r * 2 > p || (r * 2 == p && q % 2 == 1) {
        q + 1
    } else {
        q
    };
    canonical(neg, q2, k)
}

/// The double that IEEE-754 bits encode.
fn bits_to_double(b: u64) -> (r: Double)
    ensures
        r@ == bits_double(b),
{
    let neg = b >= 0x8000_0000_0000_0000u64;
    let ex = (b / 0x10_0000_0000_0000u64) % 2048;
    let f = b % 0x10_0000_0000_0000u64;
    if ex == 2047 {
        if f == 0 {
            Double::Infinite { neg }
        } else {
            Double::NotANumber
        }
    } else if ex == 0 {
        canonical(neg, f, -1074)
    } else {
        canonical(neg, f + 0x10_0000_0000_0000u64, ex as i64 - 1075)
    }
}

/// The double a JSON number converts to.
fn number_to_double(n: &JsonNumber) -> (r: Double)
    ensures
        r@ == number_double(n@),
{
    match n {
        JsonNumber::PosInt(u) => int_to_double(false, *u),
        JsonNumber::NegInt(i) => {
            if *i < 0 {
                let mag: u64 = if *i == i64::MIN {
                    0x8000_0000_0000_0000u64
                } else {
                    (-*i) as u64
                };
                int_to_double(true, mag)
            } else {
                int_to_double(false, *i as u64)
            }
        },
        JsonNumber::Float { bits, .. } => bits_to_double(*bits),
    }
}

/// Whether two JSON numbers compare equal as doubles.
pub fn numbers_equal_as_double(a: &JsonNumber, b: &JsonNumber) -> (r: bool)
    ensures
        r == numbers_double_eq(a@, b@),
{
    let x = number_to_double(a);
    let y = number_to_double(b);
    match (x, y) {
        (Double::Zero, Double::Zero) => true,
        (
            Double::Finite { neg: n1, m: m1, e: e1 },
            Double::Finite { neg: n2, m: m2, e: e2 },
        ) => n1 == n2 && m1 == m2 && e1 == e2,
        (Double::Infinite { neg: n1 }, Double::Infinite { neg: n2 }) => n1 == n2,
        _ => false,
    }
}

/// The integer a JSON number holds, when it is an integer.
pub open spec fn number_int(n: NumberV) -> Option<int> {
    match n {
        NumberV::PosInt(u) => Some(u as int),
        NumberV::NegInt(i) => Some(i as int),
        NumberV::Float(..) => None,
    }
}

/// Whether `n` is an integer of magnitude below `2^53`.
pub open spec fn small_int(n: NumberV) -> bool {
    match number_int(n) {
        Some(x) => -(two53() as int) < x < two53(),
        None => false,
    }
}

/// `canon(neg, m, e)` denotes `±m·2^e`: zero for `m == 0`, else a finite
/// value of the same sign whose odd mantissa times a power of two gives `m`.
proof fn lemma_canon_value(neg: bool, m: nat, e: int)
    ensures
        m == 0 ==> canon(neg, m, e) is Zero,
        m > 0 ==> (canon(neg, m, e) matches DoubleV::Finite { neg: n2, m: m2, e: e2 } && n2 == neg
            && e2 >= e && m2 * pow2((e2 - e) as nat) == m),
    decreases m,
{
    if m > 0 {
        if m % 2 == 0 {
            assert(m / 2 > 0);
            lemma_canon_value(neg, m / 2, e + 1);
            assert(canon(neg, m, e) == canon(neg, m / 2, e + 1));
            if let DoubleV::Finite { neg: n2, m: m2, e: e2 } = canon(neg, m / 2, e + 1) {
                let k = (e2 - e) as nat;
                assert(k > 0);
                lemma_pow2_unfold(k);
                assert(((k - 1) as nat) == ((e2 - (e + 1)) as nat));
                let p = pow2((k - 1) as nat);
                assert(m2 * p == m / 2);
                assert(pow2(k) == 2 * p);
                assert(m2 * (2 * p) == 2 * (m2 * p)) by (nonlinear_arith);
                assert(m2 * pow2(k) == m);
            }
        } else {
            vstd::arithmetic::power2::lemma2_to64();
            assert(canon(neg, m, e) == DoubleV::Finite { neg, m, e });
            assert(((e - e) as nat) == 0nat);
            assert(m * pow2(0nat) == m);
        }
    }
}

/// An integer of magnitude below `2^53` converts to a double exactly.
proof fn lemma_small_int_double(n: NumberV)
    requires
        small_int(n),
    ensures
        number_double(n) == canon(
            number_int(n)->0 < 0,
            (if number_int(n)->0 < 0 {
                -number_int(n)->0
            } else {
                number_int(n)->0
            }) as nat,
            0,
        ),
{
    let x = number_int(n)->0;
    let v: nat = (if x < 0 {
        -x
    } else {
        x
    }) as nat;
    assert(excess(v) == 0);
    vstd::arithmetic::power2::lemma2_to64();
    assert(v / 1 == v);
    assert(v % 1 == 0);
}

/// Integers of magnitude below `2^53` compare equal as doubles exactly when
/// they are the same integer, whichever integer kind holds each.
pub proof fn law_small_integers_equal_as_doubles_iff_equal(a: NumberV, b: NumberV)
    requires
        small_int(a),
        small_int(b),
    ensures
        numbers_double_eq(a, b) <==> number_int(a) == number_int(b),
{
    lemma_small_int_double(a);
    lemma_small_int_double(b);
    let x = number_int(a)->0;
    let y = number_int(b)->0;
    let vx: nat = (if x < 0 {
        -x
    } else {
        x
    }) as nat;
    let vy: nat = (if y < 0 {
        -y
    } else {
        y
    }) as nat;
    lemma_canon_value(x < 0, vx, 0);
    lemma_canon_value(y < 0, vy, 0);
    if numbers_double_eq(a, b) && x != y {
        let da = canon(x < 0, vx, 0);
        if vx > 0 && vy > 0 {
            if let DoubleV::Finite { neg: n2, m: m2, e: e2 } = da {
                assert(m2 * pow2((e2 - 0) as nat) == vx);
                assert(m2 * pow2((e2 - 0) as nat) == vy);
            }
        }
    }
}

} // verus!
