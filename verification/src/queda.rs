//! A particle that falls straight down, followed through any number of steps:
//! its energy never grows beyond what it had, so it never rises above where
//! it was let go; no bounce reaches higher than one before it; it comes to
//! rest on the bottom, and once there it stays there.

use crate::fixo::{lema_produto_contrai, lema_quociente_monotono, produto, ESCALA};
use crate::particula::{Limites, Particula};
use crate::passo::{lema_passo_cabe, ATRITO, GRAVIDADE, RESTITUICAO};
use crate::simulacao::DT_MAXIMO;
use vstd::prelude::*;

verus! {

/// Shortest time step of which the laws of this file speak: a thousandth of
/// a second. With much shorter steps the rounding of a step weighs as much
/// as what gravity adds in it.
pub const DT_MINIMO: i64 = 1_000;

/// What one step adds to the vertical speed: `600.0 * dt`.
pub open spec fn ganho(dt: int) -> int {
    600 * dt
}

/// The particle is valid and moves straight up and down inside `limites`, at
/// or above the place where it lies on the bottom, with an energy of at most
/// `teto`.
pub open spec fn em_queda(p: Particula, limites: Limites, teto: int) -> bool {
    &&& p.valida()
    &&& limites.validos()
    &&& p.a_prumo(limites)
    &&& p.altura(limites) >= 0
    &&& p.energia(limites) <= teto
}

/// `teto` is an energy that a falling particle keeps below in `limites` with
/// steps of `dt`: at least that of the hardest bounce from which a particle
/// at rest can come, and small enough for the particle to stay clear of the
/// top.
pub open spec fn teto_valido(raio: int, dt: int, limites: Limites, teto: int) -> bool {
    &&& DT_MINIMO <= dt <= DT_MAXIMO
    &&& 16 * (ganho(dt) * ganho(dt)) <= teto
    &&& teto <= 2 * GRAVIDADE * (limites.h - 2 * raio)
}

/// The particle lies on the bottom of `limites`, moving straight up and
/// down so slowly that a step of `dt` does not lift it.
pub open spec fn em_repouso(p: Particula, dt: int, limites: Limites) -> bool {
    &&& p.valida()
    &&& limites.validos()
    &&& p.a_prumo(limites)
    &&& 2 * p.raio <= limites.h
    &&& DT_MINIMO <= dt <= DT_MAXIMO
    &&& p.altura(limites) == 0
    &&& -ganho(dt) <= p.velocidade.y
    &&& 4 * p.velocidade.y <= ganho(dt)
}

/// What falls at every step of a falling particle until it is at rest: five
/// times what free flight keeps (the speed before a step times the speed
/// after its gravity, and twice the gravity times the height), less the
/// speed times what one step adds to it.
pub open spec fn medida(p: Particula, dt: int, limites: Limites) -> int {
    let v = p.velocidade.y as int;
    5 * (v * v) + 4 * (ganho(dt) * v) + 10 * GRAVIDADE * p.altura(limites)
}

/// `b` is no higher than `a` and moves down no slower.
pub open spec fn abaixo_de(b: Particula, a: Particula, limites: Limites) -> bool {
    &&& b.raio == a.raio
    &&& b.altura(limites) <= a.altura(limites)
    &&& b.velocidade.y >= a.velocidade.y
}

/// The particle is in the air, above the bottom, after each of its next `k`
/// steps.
pub open spec fn no_ar(p: Particula, k: nat, dt: int, limites: Limites) -> bool {
    forall|j: nat| 1 <= j <= k ==> (#[trigger] p.apos_passos(j, dt, limites)).altura(limites) > 0
}

/// What no step of a falling particle raises: what one step adds to the
/// speed, times what free flight keeps (the speed before a step times the
/// speed after its gravity, and twice the gravity times the height), less
/// the most that rounding can have added on the way down.
pub open spec fn folego(p: Particula, dt: int, limites: Limites) -> int {
    let v = p.velocidade.y as int;
    let v1 = v + ganho(dt);
    ganho(dt) * (v * v1 + 2 * GRAVIDADE * p.altura(limites)) - 1_200_000_000 * if v1 > 0 {
        v1
    } else {
        0
    }
}

/// The `folego` of a particle that leaves the bottom upward with speed `u`,
/// where `u` is at least what one step adds to the speed.
pub open spec fn folego_de(u: int, dt: int) -> int {
    ganho(dt) * (u * (u - ganho(dt)))
}

/// Gravity adds exactly `600.0 * dt` to the vertical speed.
pub proof fn lema_ganho(dt: int)
    ensures
        produto(GRAVIDADE as int, dt) == ganho(dt),
{
    assert(GRAVIDADE * dt == 600_000_000 * dt) by (nonlinear_arith)
        requires
            GRAVIDADE == 600_000_000,
    ;
}

/// A fixed-point product differs from the exact one by less than a
/// millionth, toward zero.
pub proof fn lema_produto_exato(a: int, b: int)
    ensures
        a * b >= 0 ==> a * b - ESCALA < ESCALA * produto(a, b) <= a * b,
        a * b <= 0 ==> a * b <= ESCALA * produto(a, b) < a * b + ESCALA,
{
    let x = a * b;
    let e = ESCALA as int;
    if x >= 0 {
        assert(x - e < e * (x / e) <= x) by (nonlinear_arith)
            requires
                x >= 0,
                e > 0,
        ;
    } else {
        let m = -x;
        assert(m - e < e * (m / e) <= m) by (nonlinear_arith)
            requires
                m >= 0,
                e > 0,
        ;
        assert(e * -(m / e) == -(e * (m / e))) by (nonlinear_arith);
    }
}

/// A step of a particle that moves straight up and down leaves it so: the
/// sides are not touched and the horizontal speed stays none.
pub proof fn lema_a_prumo(p: Particula, dt: int, limites: Limites)
    requires
        p.valida(),
        limites.validos(),
        p.a_prumo(limites),
    ensures
        p.horizontal(dt, limites).centro == p.posicao.x,
        p.horizontal(dt, limites).normal == 0,
        p.horizontal(dt, limites).tangente == p.queda(dt),
        produto(0, ATRITO as int) == 0,
{
    assert(0 * dt == 0) by (nonlinear_arith);
    assert(0 * ATRITO == 0) by (nonlinear_arith);
}

/// In free flight the energy does not grow: what a step takes from the
/// height, it gives to the speed, less what the step itself loses.
pub proof fn lema_energia_em_voo(v: int, h: int, dt: int)
    requires
        DT_MINIMO <= dt,
    ensures
        ({
            let v1 = v + ganho(dt);
            v1 * v1 + 2 * GRAVIDADE * (h - produto(v1, dt)) <= v * v + 2 * GRAVIDADE * h
        }),
{
    let g = ganho(dt);
    let v1 = v + g;
    let d = produto(v1, dt);
    let e = ESCALA as int;
    let gg = GRAVIDADE as int;
    lema_produto_exato(v1, dt);
    assert(e * d >= v1 * dt - e + 1);
    assert(2 * gg * d == 1200 * (e * d)) by (nonlinear_arith)
        requires
            gg == 600_000_000,
            e == 1_000_000,
    ;
    assert(1200 * (v1 * dt) == 2 * (v1 * g)) by (nonlinear_arith)
        requires
            g == 600 * dt,
    ;
    assert(2 * gg * (h - d) == 2 * gg * h - 2 * gg * d) by (nonlinear_arith);
    assert(v1 * v1 - 2 * (v1 * g) == v * v - g * g) by (nonlinear_arith)
        requires
            v1 == v + g,
    ;
    assert(g * g >= 3_600_000_000) by (nonlinear_arith)
        requires
            g >= 60_000,
    ;
}

/// The speed of a particle whose energy is at most a valid `teto` is far
/// from the limit of velocities.
pub proof fn lema_velocidade_em_queda(p: Particula, dt: int, limites: Limites, teto: int)
    requires
        em_queda(p, limites, teto),
        teto_valido(p.raio as int, dt, limites, teto),
    ensures
        -40_000_000_000 < p.velocidade.y < 40_000_000_000,
        p.velocidade.y * p.velocidade.y <= teto,
        0 <= limites.h - 2 * p.raio,
        p.queda(dt) == p.velocidade.y + ganho(dt),
{
    let v = p.velocidade.y as int;
    let h = p.altura(limites);
    let gg = GRAVIDADE as int;
    let folga = limites.h - 2 * p.raio;
    let g = ganho(dt);
    lema_ganho(dt);
    assert(2 * gg * h >= 0) by (nonlinear_arith)
        requires
            gg > 0,
            h >= 0,
    ;
    assert(g * g >= 0) by (nonlinear_arith);
    assert(folga >= 0) by (nonlinear_arith)
        requires
            2 * gg * folga >= 0,
            gg > 0,
    ;
    assert(2 * gg * folga <= 1_200_000_000_000_000_000_000) by (nonlinear_arith)
        requires
            gg == 600_000_000,
            folga <= 1_000_000_000_000,
    ;
    assert(-40_000_000_000 < v < 40_000_000_000) by (nonlinear_arith)
        requires
            v * v <= 1_200_000_000_000_000_000_000,
    ;
}

/// A step leaves a falling particle falling, with no more energy than
/// `teto`: in flight the energy does not grow, and a bounce leaves at most
/// the energy that the particle had or that of the hardest bounce from rest.
pub proof fn lema_energia_no_passo(p: Particula, dt: int, limites: Limites, teto: int)
    requires
        em_queda(p, limites, teto),
        teto_valido(p.raio as int, dt, limites, teto),
    ensures
        em_queda(p.apos_passo(dt, limites), limites, teto),
        ({
            let v1 = p.velocidade.y + ganho(dt);
            let q = p.apos_passo(dt, limites);
            if p.altura(limites) - produto(v1, dt) >= 0 {
                &&& q.altura(limites) == p.altura(limites) - produto(v1, dt)
                &&& q.velocidade.y == v1
            } else {
                &&& q.altura(limites) == 0
                &&& q.velocidade.y == produto(-v1, RESTITUICAO as int)
                &&& v1 > 0
            }
        }),
{
    let v = p.velocidade.y as int;
    let g = ganho(dt);
    let h = p.altura(limites);
    let gg = GRAVIDADE as int;
    let folga = limites.h - 2 * p.raio;
    let v1 = v + g;
    let d = produto(v1, dt);
    let h1 = h - d;
    let q = p.apos_passo(dt, limites);
    lema_a_prumo(p, dt, limites);
    lema_passo_cabe(p, dt, limites);
    lema_velocidade_em_queda(p, dt, limites, teto);
    lema_energia_em_voo(v, h, dt);
    assert(2 * gg * h >= 0) by (nonlinear_arith)
        requires
            gg > 0,
            h >= 0,
    ;
    if h1 >= 0 {
        assert(v1 * v1 >= 0) by (nonlinear_arith);
        assert(h1 <= folga) by (nonlinear_arith)
            requires
                2 * gg * h1 <= 2 * gg * folga,
                gg > 0,
        ;
        assert(q.posicao.y == p.posicao.y + d);
        assert(q.velocidade.y == v1);
        assert(q.velocidade.x == 0);
    } else {
        let w = produto(-v1, RESTITUICAO as int);
        lema_produto_exato(v1, dt);
        lema_produto_exato(-v1, RESTITUICAO as int);
        assert(v1 > 0) by (nonlinear_arith)
            requires
                d >= 1,
                dt > 0,
                v1 * dt >= 0 ==> ESCALA * d <= v1 * dt,
                v1 * dt <= 0 ==> ESCALA * d < v1 * dt + ESCALA,
        ;
        assert((-v1) * RESTITUICAO == -(800_000 * v1)) by (nonlinear_arith)
            requires
                RESTITUICAO == 800_000,
        ;
        lema_produto_contrai(-v1, RESTITUICAO as int);
        assert(w <= 0 && 5 * (-w) <= 4 * v1);
        assert(q.posicao.y == limites.y + limites.h - p.raio);
        assert(q.velocidade.y == w);
        assert(q.velocidade.x == 0);
        assert(2 * gg * 0 == 0) by (nonlinear_arith);
        if v >= 4 * g {
            assert(w * w <= v * v) by (nonlinear_arith)
                requires
                    0 <= -w <= v,
            ;
        } else {
            assert(w * w <= 16 * (g * g)) by (nonlinear_arith)
                requires
                    0 <= -w <= 4 * g,
            ;
        }
    }
}

/// However many steps a falling particle takes, it stays falling, with no
/// more energy than `teto`.
pub proof fn lema_energia_nos_passos(p: Particula, n: nat, dt: int, limites: Limites, teto: int)
    requires
        em_queda(p, limites, teto),
        teto_valido(p.raio as int, dt, limites, teto),
    ensures
        em_queda(p.apos_passos(n, dt, limites), limites, teto),
        p.apos_passos(n, dt, limites).raio == p.raio,
    decreases n,
{
    if n > 0 {
        lema_energia_nos_passos(p, (n - 1) as nat, dt, limites, teto);
        lema_energia_no_passo(p.apos_passos((n - 1) as nat, dt, limites), dt, limites, teto);
    }
}

/// A step leaves a particle at rest at rest: gravity pushes it into the
/// bottom, and the bounce is too weak to lift it.
pub proof fn lema_repouso_no_passo(p: Particula, dt: int, limites: Limites)
    requires
        em_repouso(p, dt, limites),
    ensures
        em_repouso(p.apos_passo(dt, limites), dt, limites),
{
    let v = p.velocidade.y as int;
    let g = ganho(dt);
    let v1 = v + g;
    let d = produto(v1, dt);
    let q = p.apos_passo(dt, limites);
    lema_ganho(dt);
    lema_a_prumo(p, dt, limites);
    lema_passo_cabe(p, dt, limites);
    lema_produto_exato(v1, dt);
    assert(p.queda(dt) == v1);
    assert(v1 * dt >= 0) by (nonlinear_arith)
        requires
            v1 >= 0,
            dt > 0,
    ;
    assert(d >= 0);
    if d >= 1 {
        let w = produto(-v1, RESTITUICAO as int);
        lema_produto_exato(-v1, RESTITUICAO as int);
        assert((-v1) * RESTITUICAO == -(800_000 * v1)) by (nonlinear_arith)
            requires
                RESTITUICAO == 800_000,
        ;
        lema_produto_contrai(-v1, RESTITUICAO as int);
        assert(w <= 0 && 5 * (-w) <= 4 * v1);
        assert(q.posicao.y == limites.y + limites.h - p.raio);
        assert(q.velocidade.y == w);
    } else {
        assert(v1 < 10_000) by (nonlinear_arith)
            requires
                v1 * dt < 1_000_000,
                dt >= 1_000,
                v1 >= 0,
        ;
        assert(q.posicao.y == p.posicao.y);
        assert(q.velocidade.y == v1);
    }
}

/// However many steps a particle at rest takes, it stays at rest.
pub proof fn lema_repouso_nos_passos(p: Particula, n: nat, dt: int, limites: Limites)
    requires
        em_repouso(p, dt, limites),
    ensures
        em_repouso(p.apos_passos(n, dt, limites), dt, limites),
    decreases n,
{
    if n > 0 {
        lema_repouso_nos_passos(p, (n - 1) as nat, dt, limites);
        lema_repouso_no_passo(p.apos_passos((n - 1) as nat, dt, limites), dt, limites);
    }
}

/// A step of a falling particle either leaves it at rest or lowers its
/// measure, which is never below the square of what a step adds to the
/// speed, taken negative.
pub proof fn lema_medida_no_passo(p: Particula, dt: int, limites: Limites, teto: int)
    requires
        em_queda(p, limites, teto),
        teto_valido(p.raio as int, dt, limites, teto),
    ensures
        em_repouso(p.apos_passo(dt, limites), dt, limites) || medida(
            p.apos_passo(dt, limites),
            dt,
            limites,
        ) < medida(p, dt, limites),
        medida(p, dt, limites) + ganho(dt) * ganho(dt) >= 0,
{
    let v = p.velocidade.y as int;
    let g = ganho(dt);
    let h = p.altura(limites);
    let gg = GRAVIDADE as int;
    let e = ESCALA as int;
    let v1 = v + g;
    let d = produto(v1, dt);
    let h1 = h - d;
    let q = p.apos_passo(dt, limites);
    lema_a_prumo(p, dt, limites);
    lema_passo_cabe(p, dt, limites);
    lema_velocidade_em_queda(p, dt, limites, teto);
    lema_energia_no_passo(p, dt, limites, teto);
    lema_produto_exato(v1, dt);
    assert(10 * gg * h >= 0) by (nonlinear_arith)
        requires
            gg > 0,
            h >= 0,
    ;
    assert(5 * (v * v) + 4 * (g * v) + g * g >= 0) by (nonlinear_arith);
    assert(g * g >= 360_000_000_000) by (nonlinear_arith)
        requires
            g >= 600_000,
    ;
    if h1 >= 0 {
        assert(e * d >= v1 * dt - e + 1);
        assert(10 * gg * d == 6000 * (e * d)) by (nonlinear_arith)
            requires
                gg == 600_000_000,
                e == 1_000_000,
        ;
        assert(6000 * (v1 * dt) == 10 * (v1 * g)) by (nonlinear_arith)
            requires
                g == 600 * dt,
        ;
        assert(10 * gg * h1 == 10 * gg * h - 10 * gg * d) by (nonlinear_arith)
            requires
                h1 == h - d,
        ;
        assert(5 * (v1 * v1) + 4 * (g * v1) - 10 * (v1 * g) == 5 * (v * v) + 4 * (g * v) - g * g)
            by (nonlinear_arith)
            requires
                v1 == v + g,
        ;
        assert(medida(q, dt, limites) < medida(p, dt, limites));
    } else {
        let w = produto(-v1, RESTITUICAO as int);
        lema_produto_exato(-v1, RESTITUICAO as int);
        assert((-v1) * RESTITUICAO == -(800_000 * v1)) by (nonlinear_arith)
            requires
                RESTITUICAO == 800_000,
        ;
        lema_produto_contrai(-v1, RESTITUICAO as int);
        let u = -w;
        assert(0 <= u && 5 * u <= 4 * v1);
        if 4 * v1 <= 5 * g {
            assert(em_repouso(q, dt, limites));
        } else {
            let uu = 5 * u;
            let s = 4 * v1;
            assert(5 * (uu * uu) - 20 * (g * uu) <= 5 * (s * s) - 20 * (g * s)) by (nonlinear_arith)
                requires
                    0 <= uu <= s,
                    s >= 5 * g,
                    g > 0,
            ;
            assert(25 * (5 * (w * w) + 4 * (g * w)) == 5 * (uu * uu) - 20 * (g * uu))
                by (nonlinear_arith)
                requires
                    uu == -5 * w,
            ;
            assert(5 * (s * s) - 20 * (g * s) == 80 * (v1 * v1) - 80 * (g * v1))
                by (nonlinear_arith)
                requires
                    s == 4 * v1,
            ;
            assert(80 * (v1 * v1) - 80 * (g * v1) < 125 * (v1 * v1) - 150 * (g * v1) + 25 * (g
                * g)) by (nonlinear_arith)
                requires
                    4 * v1 > 5 * g,
                    g > 0,
            ;
            assert(25 * (5 * (v * v) + 4 * (g * v)) == 125 * (v1 * v1) - 150 * (g * v1) + 25 * (g
                * g)) by (nonlinear_arith)
                requires
                    v == v1 - g,
            ;
            assert(10 * gg * 0 == 0) by (nonlinear_arith);
            assert(medida(q, dt, limites) < medida(p, dt, limites));
        }
    }
}

/// A falling particle comes to rest: after the number of steps that this
/// proof returns it lies on the bottom, too slow to be lifted again.
pub proof fn lema_chega_ao_repouso(p: Particula, dt: int, limites: Limites, teto: int) -> (n: nat)
    requires
        em_queda(p, limites, teto),
        teto_valido(p.raio as int, dt, limites, teto),
    ensures
        em_repouso(p.apos_passos(n, dt, limites), dt, limites),
    decreases medida(p, dt, limites) + ganho(dt) * ganho(dt),
{
    lema_medida_no_passo(p, dt, limites, teto);
    lema_energia_no_passo(p, dt, limites, teto);
    let q = p.apos_passo(dt, limites);
    assert(p.apos_passos(0, dt, limites) == p);
    assert(p.apos_passos(1, dt, limites) == q);
    if em_repouso(p, dt, limites) {
        0
    } else if em_repouso(q, dt, limites) {
        1
    } else {
        lema_medida_no_passo(q, dt, limites, teto);
        let m = lema_chega_ao_repouso(q, dt, limites, teto);
        lema_passos_somam(p, 1, m, dt, limites);
        1 + m
    }
}

/// A step keeps the order of two falling particles: if the lower and faster
/// one is in the air after it, so is the other, still no lower and no faster.
pub proof fn lema_voo_monotono(a: Particula, b: Particula, dt: int, limites: Limites, teto: int)
    requires
        em_queda(a, limites, teto),
        em_queda(b, limites, teto),
        teto_valido(a.raio as int, dt, limites, teto),
        abaixo_de(b, a, limites),
        b.apos_passo(dt, limites).altura(limites) > 0,
    ensures
        abaixo_de(b.apos_passo(dt, limites), a.apos_passo(dt, limites), limites),
{
    let g = ganho(dt);
    let va = a.velocidade.y + g;
    let vb = b.velocidade.y + g;
    lema_energia_no_passo(a, dt, limites, teto);
    lema_energia_no_passo(b, dt, limites, teto);
    assert(va * dt <= vb * dt) by (nonlinear_arith)
        requires
            va <= vb,
            dt > 0,
    ;
    lema_quociente_monotono(va * dt, vb * dt, ESCALA as int);
}

/// However many steps the lower and faster of two falling particles stays in
/// the air, the other one is no lower and no faster after each of them.
pub proof fn lema_voos_monotonos(
    a: Particula,
    b: Particula,
    k: nat,
    dt: int,
    limites: Limites,
    teto: int,
)
    requires
        em_queda(a, limites, teto),
        em_queda(b, limites, teto),
        teto_valido(a.raio as int, dt, limites, teto),
        abaixo_de(b, a, limites),
        no_ar(b, k, dt, limites),
    ensures
        abaixo_de(b.apos_passos(k, dt, limites), a.apos_passos(k, dt, limites), limites),
    decreases k,
{
    if k > 0 {
        let j = (k - 1) as nat;
        assert(no_ar(b, j, dt, limites));
        lema_voos_monotonos(a, b, j, dt, limites, teto);
        lema_energia_nos_passos(a, j, dt, limites, teto);
        lema_energia_nos_passos(b, j, dt, limites, teto);
        assert(b.apos_passos(k, dt, limites).altura(limites) > 0);
        lema_voo_monotono(
            a.apos_passos(j, dt, limites),
            b.apos_passos(j, dt, limites),
            dt,
            limites,
            teto,
        );
    }
}

/// A step does not raise the `folego` of a falling particle above that of a
/// bounce of speed `u` that it was not above.
pub proof fn lema_folego_no_passo(p: Particula, dt: int, limites: Limites, teto: int, u: int)
    requires
        em_queda(p, limites, teto),
        teto_valido(p.raio as int, dt, limites, teto),
        u >= ganho(dt),
        folego(p, dt, limites) <= folego_de(u, dt),
    ensures
        folego(p.apos_passo(dt, limites), dt, limites) <= folego_de(u, dt),
{
    let v = p.velocidade.y as int;
    let g = ganho(dt);
    let h = p.altura(limites);
    let gg = GRAVIDADE as int;
    let e = ESCALA as int;
    let c = 1_200_000_000int;
    let v1 = v + g;
    let d = produto(v1, dt);
    let h1 = h - d;
    let q = p.apos_passo(dt, limites);
    lema_energia_no_passo(p, dt, limites, teto);
    lema_produto_exato(v1, dt);
    assert(g * g >= 360_000_000_000) by (nonlinear_arith)
        requires
            g >= 600_000,
    ;
    assert(2 * gg * h >= 0) by (nonlinear_arith)
        requires
            gg > 0,
            h >= 0,
    ;
    assert(u * (u - g) >= 0 && folego_de(u, dt) >= 0) by (nonlinear_arith)
        requires
            u >= g,
            g > 0,
            folego_de(u, dt) == g * (u * (u - g)),
    ;
    if h1 >= 0 {
        // in flight: what free flight keeps grows by rounding alone
        let k = v * v1 + 2 * gg * h;
        let k1 = v1 * (v1 + g) + 2 * gg * h1;
        assert(2 * gg * d == 1200 * (e * d)) by (nonlinear_arith)
            requires
                gg == 600_000_000,
                e == 1_000_000,
        ;
        assert(1200 * (v1 * dt) == 2 * (v1 * g)) by (nonlinear_arith)
            requires
                g == 600 * dt,
        ;
        assert(2 * gg * h1 == 2 * gg * h - 2 * gg * d) by (nonlinear_arith)
            requires
                h1 == h - d,
        ;
        assert(v1 * (v1 + g) - 2 * (v1 * g) == v * v1) by (nonlinear_arith)
            requires
                v1 == v + g,
        ;
        if v1 >= 0 {
            assert(v1 * dt >= 0) by (nonlinear_arith)
                requires
                    v1 >= 0,
                    dt > 0,
            ;
            assert(k1 <= k + c);
            assert(g * k1 <= g * k + g * c) by (nonlinear_arith)
                requires
                    k1 <= k + c,
                    g > 0,
            ;
        } else {
            assert(v1 * dt <= 0) by (nonlinear_arith)
                requires
                    v1 <= 0,
                    dt > 0,
            ;
            assert(k1 <= k);
            assert(g * k1 <= g * k) by (nonlinear_arith)
                requires
                    k1 <= k,
                    g > 0,
            ;
        }
        assert(folego(q, dt, limites) <= folego(p, dt, limites));
    } else {
        let w = produto(-v1, RESTITUICAO as int);
        lema_produto_exato(-v1, RESTITUICAO as int);
        assert((-v1) * RESTITUICAO == -(800_000 * v1)) by (nonlinear_arith)
            requires
                RESTITUICAO == 800_000,
        ;
        lema_produto_contrai(-v1, RESTITUICAO as int);
        let r = -w;
        assert(0 <= r && 5 * r <= 4 * v1);
        assert(2 * gg * 0 == 0) by (nonlinear_arith);
        assert(w * (w + g) == r * (r - g)) by (nonlinear_arith)
            requires
                r == -w,
        ;
        if r <= g {
            assert(g * (r * (r - g)) <= 0) by (nonlinear_arith)
                requires
                    0 <= r <= g,
            ;
        } else if r <= u {
            assert(g * (r * (r - g)) <= g * (u * (u - g))) by (nonlinear_arith)
                requires
                    g < r <= u,
                    g > 0,
            ;
        } else {
            // a bounce stronger than `u` needs more than the particle had
            let s = 4 * v1;
            assert(g * (v * v1) - c * v1 <= folego(p, dt, limites)) by (nonlinear_arith)
                requires
                    folego(p, dt, limites) == g * (v * v1 + 2 * gg * h) - c * v1,
                    2 * gg * h >= 0,
                    g > 0,
            ;
            assert(16 * (g * (v * v1) - c * v1) == s * (g * (s - 4 * g) - 4 * c))
                by (nonlinear_arith)
                requires
                    s == 4 * v1,
                    v == v1 - g,
            ;
            assert(g * (5 * u - 4 * g) - 4 * c > 0) by (nonlinear_arith)
                requires
                    u >= g,
                    g * g >= 360_000_000_000,
                    c == 1_200_000_000,
                    g > 0,
            ;
            assert(s * (g * (s - 4 * g) - 4 * c) >= (5 * u) * (g * (5 * u - 4 * g) - 4 * c))
                by (nonlinear_arith)
                requires
                    s >= 5 * u,
                    u > 0,
                    g > 0,
                    g * (5 * u - 4 * g) - 4 * c > 0,
            ;
            assert((5 * u) * (g * (5 * u - 4 * g) - 4 * c) - 16 * (g * (u * (u - g))) == u * (9
                * (g * u) - 4 * (g * g) - 20 * c)) by (nonlinear_arith);
            assert(u * (9 * (g * u) - 4 * (g * g) - 20 * c) > 0) by (nonlinear_arith)
                requires
                    u >= g,
                    g > 0,
                    g * g >= 360_000_000_000,
                    c == 1_200_000_000,
            ;
            assert(false);
        }
    }
}

/// However many steps a falling particle takes, its `folego` stays at or
/// below that of a bounce of speed `u` that it was not above.
pub proof fn lema_folego_nos_passos(
    p: Particula,
    n: nat,
    dt: int,
    limites: Limites,
    teto: int,
    u: int,
)
    requires
        em_queda(p, limites, teto),
        teto_valido(p.raio as int, dt, limites, teto),
        u >= ganho(dt),
        folego(p, dt, limites) <= folego_de(u, dt),
    ensures
        folego(p.apos_passos(n, dt, limites), dt, limites) <= folego_de(u, dt),
    decreases n,
{
    if n > 0 {
        let j = (n - 1) as nat;
        lema_folego_nos_passos(p, j, dt, limites, teto, u);
        lema_energia_nos_passos(p, j, dt, limites, teto);
        lema_folego_no_passo(p.apos_passos(j, dt, limites), dt, limites, teto, u);
    }
}

/// A particle on the bottom whose `folego` is at most that of a bounce of
/// speed `u` moves up no faster than `u`.
pub proof fn lema_folego_no_fundo(p: Particula, dt: int, limites: Limites, u: int)
    requires
        DT_MINIMO <= dt,
        p.altura(limites) == 0,
        u >= ganho(dt),
        folego(p, dt, limites) <= folego_de(u, dt),
    ensures
        p.velocidade.y >= -u,
{
    let v = p.velocidade.y as int;
    let g = ganho(dt);
    let x = -v;
    if x > u {
        assert(2 * GRAVIDADE * 0 == 0) by (nonlinear_arith);
        assert(v * (v + g) == x * (x - g)) by (nonlinear_arith)
            requires
                x == -v,
        ;
        assert(g * (x * (x - g)) > g * (u * (u - g))) by (nonlinear_arith)
            requires
                x > u,
                u >= g,
                g > 0,
        ;
        assert(false);
    }
}

/// Steps add up: `m` steps and then `n` more are `m + n` steps.
pub proof fn lema_passos_somam(p: Particula, m: nat, n: nat, dt: int, limites: Limites)
    ensures
        p.apos_passos(m, dt, limites).apos_passos(n, dt, limites) == p.apos_passos(
            m + n,
            dt,
            limites,
        ),
    decreases n,
{
    if n > 0 {
        lema_passos_somam(p, m, (n - 1) as nat, dt, limites);
        assert((m + n - 1) as nat == m + (n - 1) as nat);
    }
}

} // verus!
