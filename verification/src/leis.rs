//! Laws of the step, of the pull and of the fall, stated over the functions
//! that the contracts of `atualizar` and `atrair` speak of.

use crate::atracao::{
    direcao, impulso, intensidade, lema_direcao_limitada, lema_intensidade_limitada, PUXAO_MAXIMO,
};
use crate::fixo::{lema_quociente_ao_quadrado, produto, ESCALA};
use crate::particula::{Limites, Particula, Vetor};
use crate::passo::{lema_passo_cabe, ATRITO, GRAVIDADE, RESTITUICAO};
use crate::queda::{
    abaixo_de, em_queda, em_repouso, folego, folego_de, ganho, lema_chega_ao_repouso,
    lema_energia_nos_passos, lema_folego_no_fundo, lema_folego_nos_passos, lema_passos_somam,
    lema_repouso_no_passo, lema_repouso_nos_passos, lema_velocidade_em_queda,
    lema_voos_monotonos, no_ar, teto_valido,
};
use vstd::prelude::*;

verus! {

/// A particle whose radius is at most half of each side of the play area lies
/// inside the play area after a step, whatever the length of the step and
/// wherever it was before.
pub proof fn lei_permanece_nos_limites(p: Particula, dt: int, limites: Limites)
    requires
        p.valida(),
        limites.validos(),
        limites.comporta(p.raio as int),
    ensures
        limites.contem(p.apos_passo(dt, limites).posicao, p.apos_passo(dt, limites).raio as int),
{
    lema_passo_cabe(p, dt, limites);
}

/// A step that carries the particle across the left side, and across no
/// other, puts it on that side, reverses its horizontal speed and leaves
/// eight tenths of it, and leaves ninety-nine hundredths of the vertical
/// speed that the particle has once gravity has acted in this step.
pub proof fn lei_quique_na_esquerda(p: Particula, dt: int, limites: Limites)
    requires
        p.valida(),
        limites.validos(),
        p.posicao.x + produto(p.velocidade.x as int, dt) - p.raio < limites.x,
        2 * p.raio <= limites.w,
        limites.y <= p.posicao.y + produto(p.queda(dt), dt) - p.raio,
        p.posicao.y + produto(p.queda(dt), dt) + p.raio <= limites.y + limites.h,
    ensures
        p.apos_passo(dt, limites).posicao.x == limites.x + p.raio,
        p.apos_passo(dt, limites).posicao.y == p.posicao.y + produto(p.queda(dt), dt),
        p.apos_passo(dt, limites).velocidade.x == produto(-p.velocidade.x, RESTITUICAO as int),
        p.apos_passo(dt, limites).velocidade.y == produto(p.queda(dt), ATRITO as int),
{
    lema_passo_cabe(p, dt, limites);
}

/// A step that carries the particle across both the left side and the top,
/// in a play area that the particle fits in, puts it in that corner and
/// applies both bounces, the left one first: each speed is reversed and
/// damped by the side it runs into and slowed by the other.
pub proof fn lei_quique_no_canto(p: Particula, dt: int, limites: Limites)
    requires
        p.valida(),
        limites.validos(),
        limites.comporta(p.raio as int),
        p.posicao.x + produto(p.velocidade.x as int, dt) - p.raio < limites.x,
        p.posicao.y + produto(p.queda(dt), dt) - p.raio < limites.y,
    ensures
        p.apos_passo(dt, limites).posicao.x == limites.x + p.raio,
        p.apos_passo(dt, limites).posicao.y == limites.y + p.raio,
        p.apos_passo(dt, limites).velocidade.x == produto(
            produto(-p.velocidade.x, RESTITUICAO as int),
            ATRITO as int,
        ),
        p.apos_passo(dt, limites).velocidade.y == produto(
            -produto(p.queda(dt), ATRITO as int),
            RESTITUICAO as int,
        ),
{
    lema_passo_cabe(p, dt, limites);
}

/// A pointer held exactly on a particle gives it no impulse, however long
/// it is held: the particle stays as it is.
pub proof fn lei_sem_impulso_no_cursor(p: Particula, dt: int)
    requires
        p.valida(),
    ensures
        impulso(0, p.distancia2(p.posicao), dt) == 0,
        p.atraida(p.posicao, dt) == p,
{
}

/// A particle let go without speed, clear of the left and right sides, never
/// rises above where it was let go and never sinks below the bottom, however
/// many steps it takes: every bounce leaves it with no more energy than it
/// had. This holds for steps between a thousandth and a thirtieth of a
/// second and a drop of at least the height that the hardest bounce from
/// rest reaches.
pub proof fn lei_queda_nunca_sobe(p: Particula, n: nat, dt: int, limites: Limites)
    requires
        p.valida(),
        limites.validos(),
        p.a_prumo(limites),
        p.velocidade.y == 0,
        p.altura(limites) >= 0,
        teto_valido(p.raio as int, dt, limites, 2 * GRAVIDADE * p.altura(limites)),
    ensures
        p.posicao.y <= p.apos_passos(n, dt, limites).posicao.y <= limites.y + limites.h - p.raio,
        p.apos_passos(n, dt, limites).a_prumo(limites),
        p.apos_passos(n, dt, limites).raio == p.raio,
{
    let teto = 2 * GRAVIDADE * p.altura(limites);
    let gg = GRAVIDADE as int;
    let h0 = p.altura(limites);
    assert(p.velocidade.y * p.velocidade.y == 0) by (nonlinear_arith)
        requires
            p.velocidade.y == 0,
    ;
    lema_energia_nos_passos(p, n, dt, limites, teto);
    let q = p.apos_passos(n, dt, limites);
    let h = q.altura(limites);
    let v = q.velocidade.y as int;
    assert(v * v >= 0) by (nonlinear_arith);
    assert(h <= h0) by (nonlinear_arith)
        requires
            2 * gg * h <= 2 * gg * h0,
            gg > 0,
    ;
}

/// The bounces of a falling particle do not grow: after any number of steps
/// its energy is at most `teto`, which may be the larger of the energy that
/// it has now and that of the hardest bounce from rest, and so its height is
/// at most the one that this energy reaches. This holds for steps between a
/// thousandth and a thirtieth of a second, of a particle that moves straight
/// up and down with an energy too small to reach the top.
pub proof fn lei_energia_limitada(p: Particula, n: nat, dt: int, limites: Limites, teto: int)
    requires
        em_queda(p, limites, teto),
        teto_valido(p.raio as int, dt, limites, teto),
    ensures
        p.apos_passos(n, dt, limites).energia(limites) <= teto,
        0 <= 2 * GRAVIDADE * p.apos_passos(n, dt, limites).altura(limites) <= teto,
        p.apos_passos(n, dt, limites).a_prumo(limites),
        p.apos_passos(n, dt, limites).raio == p.raio,
{
    lema_energia_nos_passos(p, n, dt, limites, teto);
    let q = p.apos_passos(n, dt, limites);
    let h = q.altura(limites);
    let v = q.velocidade.y as int;
    let gg = GRAVIDADE as int;
    assert(v * v >= 0) by (nonlinear_arith);
    assert(2 * gg * h >= 0) by (nonlinear_arith)
        requires
            gg > 0,
            h >= 0,
    ;
}

/// No bounce reaches higher than one before it. Take a falling particle on
/// the bottom, about to rise, and the same particle `n` steps later, on the
/// bottom again: for as long as it then stays in the air, it is after each
/// step no higher than it was the same number of steps after the earlier
/// bounce, when it was in the air as well. This holds for steps between a
/// thousandth and a thirtieth of a second, of a particle that moves straight
/// up and down with an energy too small to reach the top.
pub proof fn lei_quiques_decaem(
    a: Particula,
    n: nat,
    k: nat,
    dt: int,
    limites: Limites,
    teto: int,
)
    requires
        em_queda(a, limites, teto),
        teto_valido(a.raio as int, dt, limites, teto),
        a.altura(limites) == 0,
        a.velocidade.y <= 0,
        a.apos_passos(n, dt, limites).altura(limites) == 0,
        no_ar(a.apos_passos(n, dt, limites), k, dt, limites),
    ensures
        no_ar(a, k, dt, limites),
        forall|j: nat|
            j <= k ==> (#[trigger] a.apos_passos(n + j, dt, limites)).altura(limites)
                <= a.apos_passos(j, dt, limites).altura(limites),
{
    let b = a.apos_passos(n, dt, limites);
    let g = ganho(dt);
    let u = -a.velocidade.y;
    lema_energia_nos_passos(a, n, dt, limites, teto);
    lema_velocidade_em_queda(a, dt, limites, teto);
    assert(a.apos_passos(0, dt, limites) == a);
    assert(b.apos_passos(0, dt, limites) == b);
    if u < g {
        assert(em_repouso(a, dt, limites));
        lema_repouso_nos_passos(a, n, dt, limites);
        lema_repouso_no_passo(b, dt, limites);
        assert(b.apos_passos(1, dt, limites) == b.apos_passo(dt, limites));
        assert(k == 0);
        assert forall|j: nat| j <= k implies (#[trigger] a.apos_passos(
            n + j,
            dt,
            limites,
        )).altura(limites) <= a.apos_passos(j, dt, limites).altura(limites) by {
            assert(n + j == n);
        }
    } else {
        assert(2 * GRAVIDADE * 0 == 0) by (nonlinear_arith);
        assert(a.velocidade.y * (a.velocidade.y + g) == u * (u - g)) by (nonlinear_arith)
            requires
                u == -a.velocidade.y,
        ;
        assert(folego(a, dt, limites) == folego_de(u, dt));
        lema_folego_nos_passos(a, n, dt, limites, teto, u);
        lema_folego_no_fundo(b, dt, limites, u);
        assert(abaixo_de(b, a, limites));
        assert forall|j: nat| j <= k implies (#[trigger] a.apos_passos(
            n + j,
            dt,
            limites,
        )).altura(limites) <= a.apos_passos(j, dt, limites).altura(limites) && (j >= 1
            ==> a.apos_passos(j, dt, limites).altura(limites) > 0) by {
            assert(no_ar(b, j, dt, limites));
            lema_voos_monotonos(a, b, j, dt, limites, teto);
            lema_passos_somam(a, n, j, dt, limites);
        }
        assert forall|j: nat| 1 <= j <= k implies (#[trigger] a.apos_passos(
            j,
            dt,
            limites,
        )).altura(limites) > 0 by {
            assert(a.apos_passos(n + j, dt, limites).altura(limites) <= a.apos_passos(
                j,
                dt,
                limites,
            ).altura(limites));
            lema_passos_somam(a, n, j, dt, limites);
        }
    }
}

/// A falling particle comes to rest on the bottom and stays there: from
/// some number of steps on, which this proof returns, it lies on the bottom
/// after every step. This holds for steps between a thousandth and a
/// thirtieth of a second, of a particle that moves straight up and down with
/// an energy too small to reach the top.
pub proof fn lei_queda_repousa(p: Particula, dt: int, limites: Limites, teto: int) -> (n0: nat)
    requires
        em_queda(p, limites, teto),
        teto_valido(p.raio as int, dt, limites, teto),
    ensures
        forall|n: nat|
            n >= n0 ==> em_repouso(#[trigger] p.apos_passos(n, dt, limites), dt, limites),
        forall|n: nat|
            n >= n0 ==> (#[trigger] p.apos_passos(n, dt, limites)).posicao.y == limites.y
                + limites.h - p.raio,
{
    let n0 = lema_chega_ao_repouso(p, dt, limites, teto);
    let q = p.apos_passos(n0, dt, limites);
    assert forall|n: nat| n >= n0 implies em_repouso(
        #[trigger] p.apos_passos(n, dt, limites),
        dt,
        limites,
    ) && p.apos_passos(n, dt, limites).posicao.y == limites.y + limites.h - p.raio by {
        let k = (n - n0) as nat;
        lema_repouso_nos_passos(q, k, dt, limites);
        lema_passos_somam(p, n0, k, dt, limites);
        assert(n0 + k == n);
        lema_energia_nos_passos(p, n, dt, limites, teto);
    }
    n0
}

/// The impulse is never larger than the strength of the pull at the distance
/// of the particle, and so never larger than `240000.0 * dt`, the strength
/// within one unit of the pointer: this holds of its size, the root of the
/// sum of the squares of its two components, however near the pointer is.
pub proof fn lei_impulso_limitado(p: Particula, cursor: Vetor, dt: int)
    ensures
        ({
            let n = p.distancia2(cursor);
            let ix = impulso(cursor.x - p.posicao.x, n, dt);
            let iy = impulso(cursor.y - p.posicao.y, n, dt);
            &&& ix * ix + iy * iy <= intensidade(n, dt) * intensidade(n, dt)
            &&& ix * ix + iy * iy <= (PUXAO_MAXIMO * dt) * (PUXAO_MAXIMO * dt)
        }),
{
    let dx = cursor.x - p.posicao.x;
    let dy = cursor.y - p.posicao.y;
    let n = p.distancia2(cursor);
    let ux = direcao(dx, n);
    let uy = direcao(dy, n);
    let m = intensidade(n, dt);
    let ix = impulso(dx, n, dt);
    let iy = impulso(dy, n, dt);
    let e = ESCALA as int;
    lema_direcao_limitada(dx, dy);
    lema_intensidade_limitada(n, dt);
    lema_quociente_ao_quadrado(ux * m, e);
    lema_quociente_ao_quadrado(uy * m, e);
    let ee = e * e;
    let mm = m * m;
    let sx = ix * ix;
    let sy = iy * iy;
    let tx = ux * ux;
    let ty = uy * uy;
    assert((ux * m) * (ux * m) == tx * mm && (uy * m) * (uy * m) == ty * mm) by (nonlinear_arith)
        requires
            tx == ux * ux,
            ty == uy * uy,
            mm == m * m,
    ;
    assert(mm >= 0 && ee > 0) by (nonlinear_arith)
        requires
            mm == m * m,
            ee == e * e,
            e > 0,
    ;
    assert((sx + sy) * ee <= mm * ee) by (nonlinear_arith)
        requires
            sx * ee <= tx * mm,
            sy * ee <= ty * mm,
            tx + ty <= ee,
            mm >= 0,
    ;
    assert(sx + sy <= mm) by (nonlinear_arith)
        requires
            (sx + sy) * ee <= mm * ee,
            ee > 0,
    ;
    let t = PUXAO_MAXIMO * dt;
    assert(mm <= t * t) by (nonlinear_arith)
        requires
            mm == m * m,
            (0 <= m <= t) || (t <= m <= 0),
    ;
}

} // verus!
