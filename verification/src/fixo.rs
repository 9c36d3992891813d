//! Fixed-point arithmetic.
//!
//! Every physical quantity of the simulation (a coordinate, a speed, a radius,
//! a colour channel, a time step in seconds) is an `i64` that counts millionths:
//! the integer `1_000_000` stands for `1.0`. Sums are exact; products and
//! quotients round toward zero, so that negating an operand negates the result.

use vstd::prelude::*;

verus! {

/// The integer that stands for `1.0`.
pub const ESCALA: i64 = 1_000_000;

/// Largest magnitude of an `i64`-by-`i64` product: `2^126`.
pub const PRODUTO_MAXIMO: i128 = 0x4000_0000_0000_0000_0000_0000_0000_0000;

/// `n / d` rounded toward zero, for a positive divisor.
pub open spec fn quociente(n: int, d: int) -> int
    recommends
        d > 0,
{
    if n >= 0 {
        n / d
    } else {
        -((-n) / d)
    }
}

/// The fixed-point product of two fixed-point numbers.
pub open spec fn produto(a: int, b: int) -> int {
    quociente(a * b, ESCALA as int)
}

/// `x` brought into `[-limite, limite]`.
pub open spec fn saturar(x: int, limite: int) -> int
    recommends
        limite >= 0,
{
    if x > limite {
        limite
    } else if x < -limite {
        -limite
    } else {
        x
    }
}

/// `r` is the integer square root of `n`.
pub open spec fn e_raiz(n: int, r: int) -> bool {
    0 <= r && r * r <= n < (r + 1) * (r + 1)
}

/// The integer square root of a non-negative `n`: the one `r` with `e_raiz(n, r)`.
pub open spec fn raiz(n: int) -> int
    recommends
        n >= 0,
{
    choose|r: int| e_raiz(n, r)
}

/// The square root of a non-negative `n` rounded up: the least integer whose
/// square is at least `n`.
pub open spec fn raiz_acima(n: int) -> int
    recommends
        n >= 0,
{
    if raiz(n) * raiz(n) == n {
        raiz(n)
    } else {
        raiz(n) + 1
    }
}

/// A truncated quotient is no larger in magnitude than its numerator and has
/// its sign (or is zero).
pub proof fn lema_quociente_limitado(n: int, d: int)
    requires
        d > 0,
    ensures
        n >= 0 ==> 0 <= quociente(n, d) <= n,
        n <= 0 ==> n <= quociente(n, d) <= 0,
{
    if n >= 0 {
        assert(0 <= n / d <= n) by (nonlinear_arith)
            requires
                n >= 0,
                d > 0,
        ;
    } else {
        let m = -n;
        assert(0 <= m / d <= m) by (nonlinear_arith)
            requires
                m >= 0,
                d > 0,
        ;
    }
}

/// Truncation is monotone in the numerator.
pub proof fn lema_quociente_monotono(a: int, b: int, d: int)
    requires
        d > 0,
        a <= b,
    ensures
        quociente(a, d) <= quociente(b, d),
{
    if a >= 0 {
        assert(a / d <= b / d) by (nonlinear_arith)
            requires
                0 <= a <= b,
                d > 0,
        ;
    } else if b < 0 {
        let x = -b;
        let y = -a;
        assert(x / d <= y / d) by (nonlinear_arith)
            requires
                0 <= x <= y,
                d > 0,
        ;
    }
}

/// Negating the numerator negates a truncated quotient.
pub proof fn lema_quociente_oposto(n: int, d: int)
    requires
        d > 0,
    ensures
        quociente(-n, d) == -quociente(n, d),
{
    if n == 0 {
        assert(0int / d == 0) by (nonlinear_arith)
            requires
                d > 0,
        ;
    }
}

/// The square of a truncated quotient, times the square of the divisor, is
/// at most the square of the numerator.
pub proof fn lema_quociente_ao_quadrado(n: int, d: int)
    requires
        d > 0,
    ensures
        (quociente(n, d) * quociente(n, d)) * (d * d) <= n * n,
{
    let m = if n >= 0 {
        n
    } else {
        -n
    };
    let q = m / d;
    assert(0 <= q * d <= m) by (nonlinear_arith)
        requires
            m >= 0,
            d > 0,
            q == m / d,
    ;
    assert((q * q) * (d * d) <= m * m) by (nonlinear_arith)
        requires
            0 <= q * d <= m,
    ;
    assert(m * m == n * n) by (nonlinear_arith)
        requires
            m == n || m == -n,
    ;
    assert(quociente(n, d) * quociente(n, d) == q * q) by (nonlinear_arith)
        requires
            quociente(n, d) == q || quociente(n, d) == -q,
    ;
}

/// Bound on the exact product of two bounded integers.
pub proof fn lema_multiplicacao_limitada(a: int, b: int, la: int, lb: int)
    by (nonlinear_arith)
    requires
        -la <= a <= la,
        -lb <= b <= lb,
    ensures
        -(la * lb) <= a * b <= la * lb,
{
}

/// Multiplying by a factor between `0.0` and `1.0` never increases the
/// magnitude and never flips the sign.
pub proof fn lema_produto_contrai(a: int, b: int)
    requires
        0 <= b <= ESCALA,
    ensures
        a >= 0 ==> 0 <= produto(a, b) <= a,
        a <= 0 ==> a <= produto(a, b) <= 0,
{
    let e = ESCALA as int;
    if a >= 0 {
        assert(0 <= a * b <= a * e) by (nonlinear_arith)
            requires
                a >= 0,
                0 <= b <= e,
        ;
        lema_quociente_monotono(a * b, a * e, e);
        lema_quociente_limitado(a * b, e);
        assert((a * e) / e == a) by (nonlinear_arith)
            requires
                e > 0,
        ;
    } else {
        let m = -a;
        assert((-m) * b == -(m * b)) by (nonlinear_arith);
        assert(0 <= m * b <= m * e) by (nonlinear_arith)
            requires
                m >= 0,
                0 <= b <= e,
        ;
        lema_quociente_monotono(m * b, m * e, e);
        lema_quociente_limitado(m * b, e);
        lema_quociente_oposto(m * b, e);
        assert((m * e) / e == m) by (nonlinear_arith)
            requires
                e > 0,
        ;
    }
}

/// The fixed-point product of two `i64` values stays within `2^126`.
pub proof fn lema_produto_cabe(a: i64, b: i64)
    ensures
        -PRODUTO_MAXIMO <= a * b <= PRODUTO_MAXIMO,
        -PRODUTO_MAXIMO <= produto(a as int, b as int) <= PRODUTO_MAXIMO,
{
    lema_multiplicacao_limitada(
        a as int,
        b as int,
        0x8000_0000_0000_0000,
        0x8000_0000_0000_0000,
    );
    lema_quociente_limitado(a * b, ESCALA as int);
}

/// At most one integer is the square root of `n`.
pub proof fn lema_raiz_unica(n: int, r: int, s: int)
    requires
        e_raiz(n, r),
        e_raiz(n, s),
    ensures
        r == s,
{
    if r < s {
        assert((r + 1) * (r + 1) <= s * s) by (nonlinear_arith)
            requires
                0 <= r,
                r + 1 <= s,
        ;
    } else if s < r {
        assert((s + 1) * (s + 1) <= r * r) by (nonlinear_arith)
            requires
                0 <= s,
                s + 1 <= r,
        ;
    }
}

/// Whoever holds a square root of `n` holds `raiz(n)`.
pub proof fn lema_raiz(n: int, r: int)
    requires
        e_raiz(n, r),
    ensures
        raiz(n) == r,
{
    lema_raiz_unica(n, r, raiz(n));
}

/// Every non-negative integer has an integer square root.
pub proof fn lema_raiz_existe(n: int)
    requires
        n >= 0,
    ensures
        e_raiz(n, raiz(n)),
    decreases n,
{
    if n == 0 {
        assert(e_raiz(0, 0));
    } else {
        lema_raiz_existe(n - 1);
        let r = raiz(n - 1);
        if n < (r + 1) * (r + 1) {
            assert(e_raiz(n, r));
        } else {
            assert((r + 1) * (r + 1) < (r + 2) * (r + 2)) by (nonlinear_arith)
                requires
                    r >= 0,
            ;
            assert(e_raiz(n, r + 1));
        }
    }
}

/// The root rounded up is not negative, its square is at least `n`, and it
/// is zero for zero only.
pub proof fn lema_raiz_acima(n: int)
    requires
        n >= 0,
    ensures
        raiz_acima(n) >= 0,
        raiz_acima(n) * raiz_acima(n) >= n,
        n > 0 ==> raiz_acima(n) > 0,
{
    lema_raiz_existe(n);
}

/// The fixed-point product `a * b`, which may exceed an `i64`.
pub fn multiplicar(a: i64, b: i64) -> (r: i128)
    ensures
        r == produto(a as int, b as int),
{
    proof {
        lema_produto_cabe(a, b);
    }
    let exato: i128 = (a as i128) * (b as i128);
    exato / (ESCALA as i128)
}

/// `x` brought into `[-limite, limite]`.
pub fn limitar(x: i128, limite: i64) -> (r: i64)
    requires
        limite >= 0,
    ensures
        r == saturar(x as int, limite as int),
{
    if x > limite as i128 {
        limite
    } else if x < -(limite as i128) {
        -limite
    } else {
        x as i64
    }
}

/// The integer square root: the largest `r` whose square does not exceed `n`.
pub fn raiz_inteira(n: u128) -> (r: u64)
    ensures
        r * r <= n < (r + 1) * (r + 1),
        r == raiz(n as int),
{
    let mut abaixo: u128 = 0;
    let mut acima: u128 = 0x1_0000_0000_0000_0000;
    while acima - abaixo > 1
        invariant
            abaixo < acima <= 0x1_0000_0000_0000_0000,
            abaixo * abaixo <= n < acima * acima,
        decreases acima - abaixo,
    {
        let meio: u128 = abaixo + (acima - abaixo) / 2;
        assert(meio * meio <= 0xFFFF_FFFF_FFFF_FFFF * 0xFFFF_FFFF_FFFF_FFFF) by (nonlinear_arith)
            requires
                0 <= meio <= 0xFFFF_FFFF_FFFF_FFFF,
        ;
        if meio * meio <= n {
            abaixo = meio;
        } else {
            acima = meio;
        }
    }
    proof {
        lema_raiz(n as int, abaixo as int);
    }
    abaixo as u64
}

/// The square root rounded up: the least `r` whose square is at least `n`.
pub fn raiz_inteira_acima(n: u128) -> (r: u128)
    ensures
        r == raiz_acima(n as int),
        r <= 0x1_0000_0000_0000_0000,
{
    let abaixo: u128 = raiz_inteira(n) as u128;
    if abaixo * abaixo == n {
        abaixo
    } else {
        abaixo + 1
    }
}

} // verus!
