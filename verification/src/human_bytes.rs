//! Human-readable byte counts in binary units (`B`, `KiB`, `MiB`, `GiB`,
//! `TiB`) with one decimal: the count is taken as an IEEE double, divided by
//! 1024 while it is at least 1024 (up to TiB), and printed rounded to one
//! decimal place, ties to even. Everything is computed exactly in integers.

use vstd::prelude::*;

use crate::text::push_char;

verus! {

/// Two to the `n`.
pub open spec fn two_pow(n: nat) -> nat
    decreases n,
{
    if n == 0 {
        1
    } else {
        2 * two_pow((n - 1) as nat)
    }
}

/// 1024 to the `u`.
pub open spec fn pow1024(u: nat) -> nat
    decreases u,
{
    if u == 0 {
        1
    } else {
        1024 * pow1024((u - 1) as nat)
    }
}

/// The number of binary digits of `x`.
pub open spec fn bit_length(x: nat) -> nat
    decreases x,
{
    if x == 0 {
        0
    } else {
        1 + bit_length(x / 2)
    }
}

/// Rounds `x / unit` to an integer, ties to even.
pub open spec fn round_half_even(x: nat, unit: nat) -> nat
    recommends
        unit > 0,
{
    let q = x / unit;
    let r = x % unit;
    if 2 * r > unit || (2 * r == unit && q % 2 == 1) {
        q + 1
    } else {
        q
    }
}

/// The value of `x` as an IEEE double: `x` rounded to 53 significant bits, ties to even.
pub open spec fn as_double(x: nat) -> nat {
    if bit_length(x) <= 53 {
        x
    } else {
        let ulp = two_pow((bit_length(x) - 53) as nat);
        round_half_even(x, ulp) * ulp
    }
}

/// The unit index reached by dividing `v` by 1024 while it is at least 1024,
/// starting from unit `u`, at most up to 4.
pub open spec fn unit_for(v: nat, u: nat) -> nat
    decreases 4 - u,
{
    if u < 4 && v >= pow1024(u + 1) {
        unit_for(v, u + 1)
    } else {
        u
    }
}

/// Tenths of `v / 1024^u`, rounded ties to even.
pub open spec fn tenths(v: nat, u: nat) -> nat {
    round_half_even(10 * v, pow1024(u))
}

pub open spec fn digit(d: nat) -> char {
    seq!['0', '1', '2', '3', '4', '5', '6', '7', '8', '9'][d as int]
}

/// Decimal digits of `n`, without leading zeros (`0` for zero).
pub open spec fn decimal(n: nat) -> Seq<char>
    decreases n,
{
    if n < 10 {
        seq![digit(n)]
    } else {
        decimal(n / 10).push(digit(n % 10))
    }
}

pub open spec fn unit_name(u: nat) -> Seq<char> {
    if u == 0 {
        seq!['B']
    } else if u == 1 {
        seq!['K', 'i', 'B']
    } else if u == 2 {
        seq!['M', 'i', 'B']
    } else if u == 3 {
        seq!['G', 'i', 'B']
    } else {
        seq!['T', 'i', 'B']
    }
}

/// The text for a byte count.
pub open spec fn spec_human_i_bytes(bytes: u64) -> Seq<char> {
    let v = as_double(bytes as nat);
    let u = unit_for(v, 0);
    let t = tenths(v, u);
    decimal(t / 10) + seq!['.', digit(t % 10), ' '] + unit_name(u)
}

proof fn lemma_bit_length_bound(x: nat, k: nat)
    ensures
        bit_length(x) <= k <==> x < two_pow(k),
    decreases k,
{
    if k == 0 {
        if x > 0 {
            assert(bit_length(x) >= 1);
        }
    } else {
        if x > 0 {
            lemma_bit_length_bound(x / 2, (k - 1) as nat);
        } else {
            lemma_two_pow_positive(k);
        }
    }
}

proof fn lemma_two_pow_positive(k: nat)
    ensures
        two_pow(k) >= 1,
    decreases k,
{
    if k > 0 {
        lemma_two_pow_positive((k - 1) as nat);
    }
}

fn digit_char(d: u128) -> (c: char)
    requires
        d < 10,
    ensures
        c == digit(d as nat),
{
    let table: [char; 10] = ['0', '1', '2', '3', '4', '5', '6', '7', '8', '9'];
    assert(table@ =~= seq!['0', '1', '2', '3', '4', '5', '6', '7', '8', '9']);
    table[d as usize]
}

fn push_decimal(s: &mut String, n: u128)
    ensures
        final(s)@ == old(s)@ + decimal(n as nat),
    decreases n,
{
    if n >= 10 {
        push_decimal(s, n / 10);
        push_char(s, digit_char(n % 10));
        assert(final(s)@ =~= old(s)@ + decimal(n as nat));
    } else {
        push_char(s, digit_char(n));
        assert(final(s)@ =~= old(s)@ + decimal(n as nat));
    }
}

fn round_half_even_of(x: u128, unit: u128) -> (r: u128)
    requires
        unit > 0,
        x / unit < u128::MAX,
    ensures
        r == round_half_even(x as nat, unit as nat),
{
    let q = x / unit;
    let rem = x % unit;
    if (rem > unit - rem) || (rem == unit - rem && q % 2 == 1) {
        q + 1
    } else {
        q
    }
}

proof fn lemma_two_pow_add(a: nat, b: nat)
    ensures
        two_pow(a + b) == two_pow(a) * two_pow(b),
    decreases b,
{
    if b == 0 {
        assert(two_pow(b) == 1);
        assert(a + b == a);
        assert(two_pow(a) * 1 == two_pow(a));
    } else {
        let bb = (b - 1) as nat;
        lemma_two_pow_add(a, bb);
        let x = two_pow(a);
        let y = two_pow(bb);
        assert(two_pow(a + b) == 2 * two_pow(a + bb));
        assert(two_pow(b) == 2 * y);
        assert(x * (2 * y) == 2 * (x * y)) by (nonlinear_arith);
        assert(two_pow(a + bb) == x * y);
    }
}

proof fn lemma_two_pow_le(k: nat, m: nat)
    requires
        k <= m,
    ensures
        two_pow(k) <= two_pow(m),
    decreases m,
{
    if k < m {
        lemma_two_pow_le(k, (m - 1) as nat);
        lemma_two_pow_positive((m - 1) as nat);
    }
}

fn double_of(x: u64) -> (r: u128)
    ensures
        r == as_double(x as nat),
        r < 0x1000_0000_0000_0000_0000u128,
{
    let x = x as u128;
    assert(two_pow(11) == 2048) by {
        reveal_with_fuel(two_pow, 12);
    }
    assert(two_pow(53) == 9007199254740992) by {
        lemma_two_pow_add(11, 42);
        assert(two_pow(42) == 4398046511104) by {
            lemma_two_pow_add(11, 31);
            assert(two_pow(31) == 2147483648) by {
                lemma_two_pow_add(11, 20);
                assert(two_pow(20) == 1048576) by {
                    lemma_two_pow_add(11, 9);
                    reveal_with_fuel(two_pow, 10);
                }
            }
        }
    }
    assert(two_pow(64) == 0x1_0000_0000_0000_0000) by {
        lemma_two_pow_add(53, 11);
    }
    proof {
        lemma_bit_length_bound(x as nat, 53);
        lemma_bit_length_bound(x as nat, 64);
    }
    if x < 9007199254740992 {
        return x;
    }
    let mut bl: u128 = 0;
    let mut t: u128 = x;
    while t > 0
        invariant
            bit_length(x as nat) == bl + bit_length(t as nat),
            bit_length(x as nat) <= 64,
        decreases t,
    {
        t = t / 2;
        bl = bl + 1;
    }
    assert(54 <= bl <= 64);
    let mut ulp: u128 = 1;
    let mut k: u128 = 0;
    while k < bl - 53
        invariant
            54 <= bl <= 64,
            k <= bl - 53,
            ulp == two_pow(k as nat),
            1 <= ulp <= 2048,
            two_pow(11) == 2048,
        decreases bl - 53 - k,
    {
        proof {
            lemma_two_pow_le((k + 1) as nat, 11);
        }
        ulp = ulp * 2;
        k = k + 1;
    }
    assert(x / ulp <= x) by (nonlinear_arith)
        requires
            ulp >= 1,
    ;
    let q = round_half_even_of(x, ulp);
    assert(q <= 0x1_0000_0000_0000_0000u128);
    assert(q * ulp < 0x1000_0000_0000_0000_0000u128) by (nonlinear_arith)
        requires
            q <= 0x1_0000_0000_0000_0000u128,
            ulp <= 2048,
    ;
    q * ulp
}

/// Formats a byte count with binary units and one decimal, e.g. `1.5 KiB`.
pub fn human_i_bytes(bytes: u64) -> (r: String)
    ensures
        r@ == spec_human_i_bytes(bytes),
{
    let v = double_of(bytes);
    let mut u: u128 = 0;
    let mut p: u128 = 1;
    while u < 4 && v >= p * 1024
        invariant
            u <= 4,
            p == pow1024(u as nat),
            p >= 1,
            p <= 0x100_0000_0000u128,
            unit_for(v as nat, 0) == unit_for(v as nat, u as nat),
        decreases 4 - u,
    {
        p = p * 1024;
        u = u + 1;
        proof {
            lemma_pow1024_positive(u as nat);
        }
        assert(p <= 0x100_0000_0000u128) by {
            assert(pow1024(4) == 0x100_0000_0000) by {
                reveal_with_fuel(pow1024, 5);
            }
            assert(u <= 4);
            lemma_pow1024_le(u as nat, 4);
        }
    }
    let t = round_half_even_of(10 * v, p);
    let mut s = String::new();
    push_decimal(&mut s, t / 10);
    push_char(&mut s, '.');
    push_char(&mut s, digit_char(t % 10));
    push_char(&mut s, ' ');
    if u == 0 {
        push_char(&mut s, 'B');
    } else {
        if u == 1 {
            push_char(&mut s, 'K');
        } else if u == 2 {
            push_char(&mut s, 'M');
        } else if u == 3 {
            push_char(&mut s, 'G');
        } else {
            push_char(&mut s, 'T');
        }
        push_char(&mut s, 'i');
        push_char(&mut s, 'B');
    }
    assert(s@ =~= spec_human_i_bytes(bytes));
    s
}

proof fn lemma_pow1024_le(a: nat, b: nat)
    requires
        a <= b,
    ensures
        pow1024(a) <= pow1024(b),
    decreases b,
{
    if a < b {
        lemma_pow1024_le(a, (b - 1) as nat);
        lemma_pow1024_positive((b - 1) as nat);
    }
}

proof fn lemma_pow1024_positive(k: nat)
    ensures
        pow1024(k) >= 1,
    decreases k,
{
    if k > 0 {
        lemma_pow1024_positive((k - 1) as nat);
    }
}

} // verus!
