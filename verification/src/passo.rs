//! One step of integration: gravity, motion, and the bounce off the sides of
//! the play area.

use crate::fixo::{
    lema_produto_cabe, lema_produto_contrai, limitar, multiplicar, produto, saturar,
};
use crate::particula::{
    Limites, Particula, Vetor, LIMITE_EXTENSAO, LIMITE_POSICAO, LIMITE_VELOCIDADE,
};
use vstd::prelude::*;

verus! {

/// Downward acceleration: `600.0` units per second squared.
pub const GRAVIDADE: i64 = 600_000_000;

/// Share of the perpendicular speed that survives a bounce: `0.8`.
pub const RESTITUICAO: i64 = 800_000;

/// Share of the tangential speed that survives a bounce: `0.99`.
pub const ATRITO: i64 = 990_000;

/// A particle seen along one axis: its coordinate on the axis, its speed
/// along the axis, and its speed across it.
pub struct Eixo {
    pub centro: int,
    pub normal: int,
    pub tangente: int,
}

/// The bounce: the centre is put at `centro`, the speed along the axis is
/// reversed and damped, the speed across it is slowed by friction.
pub open spec fn rebater(e: Eixo, centro: int) -> Eixo {
    Eixo {
        centro,
        normal: produto(-e.normal, RESTITUICAO as int),
        tangente: produto(e.tangente, ATRITO as int),
    }
}

/// Keeps a circle of radius `raio` within `[inicio, inicio + extensao]`
/// along one axis. A circle that reaches beyond the near side bounces there;
/// one that then reaches beyond the far side bounces there. In an interval
/// narrower than the circle, a bounce off the near side is followed by one
/// off the far side.
pub open spec fn conter(e: Eixo, raio: int, inicio: int, extensao: int) -> Eixo {
    let e1 = if e.centro - raio < inicio {
        rebater(e, inicio + raio)
    } else {
        e
    };
    if e1.centro + raio > inicio + extensao {
        rebater(e1, inicio + extensao - raio)
    } else {
        e1
    }
}

impl Particula {
    /// The vertical speed once gravity has acted for `dt`, kept within
    /// `LIMITE_VELOCIDADE`.
    pub open spec fn queda(self, dt: int) -> int {
        saturar(self.velocidade.y + produto(GRAVIDADE as int, dt), LIMITE_VELOCIDADE as int)
    }

    /// The horizontal axis after the step: motion, then left and right sides.
    pub open spec fn horizontal(self, dt: int, limites: Limites) -> Eixo {
        conter(
            Eixo {
                centro: self.posicao.x + produto(self.velocidade.x as int, dt),
                normal: self.velocidade.x as int,
                tangente: self.queda(dt),
            },
            self.raio as int,
            limites.x as int,
            limites.w as int,
        )
    }

    /// The vertical axis after the step: motion, then top and bottom sides,
    /// on the speeds that the horizontal sides left.
    pub open spec fn vertical(self, dt: int, limites: Limites) -> Eixo {
        let h = self.horizontal(dt, limites);
        conter(
            Eixo {
                centro: self.posicao.y + produto(self.queda(dt), dt),
                normal: h.tangente,
                tangente: h.normal,
            },
            self.raio as int,
            limites.y as int,
            limites.h as int,
        )
    }

    /// The particle after one step of `dt` seconds inside `limites`.
    pub open spec fn apos_passo(self, dt: int, limites: Limites) -> Particula {
        let h = self.horizontal(dt, limites);
        let v = self.vertical(dt, limites);
        Particula {
            posicao: Vetor { x: h.centro as i64, y: v.centro as i64 },
            velocidade: Vetor { x: v.tangente as i64, y: v.normal as i64 },
            raio: self.raio,
            cor: self.cor,
        }
    }

    /// The particle after `n` steps of `dt` seconds each inside `limites`.
    pub open spec fn apos_passos(self, n: nat, dt: int, limites: Limites) -> Particula
        decreases n,
    {
        if n == 0 {
            self
        } else {
            self.apos_passos((n - 1) as nat, dt, limites).apos_passo(dt, limites)
        }
    }

    /// How high the particle is above the place where it lies on the bottom
    /// of the play area.
    pub open spec fn altura(self, limites: Limites) -> int {
        limites.y + limites.h - self.raio - self.posicao.y
    }

    /// Twice the energy of the vertical motion for each unit of mass: the
    /// square of the vertical speed, and twice the gravity times the height.
    pub open spec fn energia(self, limites: Limites) -> int {
        self.velocidade.y * self.velocidade.y + 2 * GRAVIDADE * self.altura(limites)
    }

    /// The particle moves straight up and down: it has no horizontal speed and
    /// touches neither the left nor the right side.
    pub open spec fn a_prumo(self, limites: Limites) -> bool {
        &&& self.velocidade.x == 0
        &&& limites.x + self.raio <= self.posicao.x <= limites.x + limites.w - self.raio
    }

    /// Advances the particle by `dt` seconds: gravity is added to the vertical
    /// speed, the position moves by the new velocity, and each side of the
    /// play area that the circle then crosses (left, right, top, bottom, in
    /// this order and each on its own) puts the circle back on that side,
    /// reverses and damps the speed toward it and slows the speed along it.
    pub fn atualizar(&mut self, dt: i64, limites: Limites)
        requires
            old(self).valida(),
            limites.validos(),
        ensures
            *final(self) == old(self).apos_passo(dt as int, limites),
            final(self).valida(),
            limites.comporta(old(self).raio as int) ==> limites.contem(
                final(self).posicao,
                final(self).raio as int,
            ),
    {
        let raio: i128 = self.raio as i128;
        let esquerda: i128 = limites.x as i128;
        let direita: i128 = limites.x as i128 + limites.w as i128;
        let topo: i128 = limites.y as i128;
        let fundo: i128 = limites.y as i128 + limites.h as i128;

        proof {
            lema_produto_cabe(GRAVIDADE, dt);
            lema_produto_cabe(self.velocidade.x, dt);
        }
        let mut vx: i64 = self.velocidade.x;
        let mut vy: i64 = limitar(
            self.velocidade.y as i128 + multiplicar(GRAVIDADE, dt),
            LIMITE_VELOCIDADE,
        );
        proof {
            lema_produto_cabe(vy, dt);
        }
        let mut x: i128 = self.posicao.x as i128 + multiplicar(vx, dt);
        let mut y: i128 = self.posicao.y as i128 + multiplicar(vy, dt);

        if x - raio < esquerda {
            x = esquerda + raio;
            vx = refletir(vx);
            vy = frear(vy);
        }
        if x + raio > direita {
            x = direita - raio;
            vx = refletir(vx);
            vy = frear(vy);
        }
        if y - raio < topo {
            y = topo + raio;
            vy = refletir(vy);
            vx = frear(vx);
        }
        if y + raio > fundo {
            y = fundo - raio;
            vy = refletir(vy);
            vx = frear(vx);
        }
        self.posicao = Vetor { x: x as i64, y: y as i64 };
        self.velocidade = Vetor { x: vx, y: vy };
    }
}

/// A bounce leaves both speeds within the limit that they were in.
pub proof fn lema_rebater(e: Eixo, centro: int)
    requires
        -LIMITE_VELOCIDADE <= e.normal <= LIMITE_VELOCIDADE,
        -LIMITE_VELOCIDADE <= e.tangente <= LIMITE_VELOCIDADE,
    ensures
        rebater(e, centro).centro == centro,
        -LIMITE_VELOCIDADE <= rebater(e, centro).normal <= LIMITE_VELOCIDADE,
        -LIMITE_VELOCIDADE <= rebater(e, centro).tangente <= LIMITE_VELOCIDADE,
{
    lema_produto_contrai(-e.normal, RESTITUICAO as int);
    lema_produto_contrai(e.tangente, ATRITO as int);
}

/// Along one axis of a valid play area, a circle of a valid radius ends on
/// one of the two sides or where it was, between them, and within
/// `LIMITE_POSICAO` in each case; both speeds stay within their limit.
pub proof fn lema_conter(e: Eixo, raio: int, inicio: int, extensao: int)
    requires
        -LIMITE_VELOCIDADE <= e.normal <= LIMITE_VELOCIDADE,
        -LIMITE_VELOCIDADE <= e.tangente <= LIMITE_VELOCIDADE,
        0 < raio <= LIMITE_EXTENSAO,
        -LIMITE_EXTENSAO <= inicio <= LIMITE_EXTENSAO,
        -LIMITE_EXTENSAO <= extensao <= LIMITE_EXTENSAO,
    ensures
        -LIMITE_POSICAO <= conter(e, raio, inicio, extensao).centro <= LIMITE_POSICAO,
        -LIMITE_VELOCIDADE <= conter(e, raio, inicio, extensao).normal <= LIMITE_VELOCIDADE,
        -LIMITE_VELOCIDADE <= conter(e, raio, inicio, extensao).tangente <= LIMITE_VELOCIDADE,
        2 * raio <= extensao ==> inicio + raio <= conter(e, raio, inicio, extensao).centro <= inicio
            + extensao - raio,
{
    lema_rebater(e, inicio + raio);
    let e1 = if e.centro - raio < inicio {
        rebater(e, inicio + raio)
    } else {
        e
    };
    lema_rebater(e1, inicio + extensao - raio);
}

/// After a step, whatever its length, the position and the velocity of a
/// valid particle in a valid play area are within their limits, so that the
/// particle that `apos_passo` gives holds them as they are.
pub proof fn lema_passo_cabe(p: Particula, dt: int, limites: Limites)
    requires
        p.valida(),
        limites.validos(),
    ensures
        p.apos_passo(dt, limites).posicao.x == p.horizontal(dt, limites).centro,
        p.apos_passo(dt, limites).posicao.y == p.vertical(dt, limites).centro,
        p.apos_passo(dt, limites).velocidade.x == p.vertical(dt, limites).tangente,
        p.apos_passo(dt, limites).velocidade.y == p.vertical(dt, limites).normal,
        p.apos_passo(dt, limites).valida(),
        limites.comporta(p.raio as int) ==> limites.contem(
            p.apos_passo(dt, limites).posicao,
            p.raio as int,
        ),
{
    let h0 = Eixo {
        centro: p.posicao.x + produto(p.velocidade.x as int, dt),
        normal: p.velocidade.x as int,
        tangente: p.queda(dt),
    };
    lema_conter(h0, p.raio as int, limites.x as int, limites.w as int);
    let h = p.horizontal(dt, limites);
    let v0 = Eixo {
        centro: p.posicao.y + produto(p.queda(dt), dt),
        normal: h.tangente,
        tangente: h.normal,
    };
    lema_conter(v0, p.raio as int, limites.y as int, limites.h as int);
}

/// The speed toward a side after the bounce: reversed and damped.
fn refletir(v: i64) -> (r: i64)
    requires
        -LIMITE_VELOCIDADE <= v <= LIMITE_VELOCIDADE,
    ensures
        r == produto(-v, RESTITUICAO as int),
        -LIMITE_VELOCIDADE <= r <= LIMITE_VELOCIDADE,
{
    proof {
        lema_produto_contrai(-v, RESTITUICAO as int);
    }
    multiplicar(-v, RESTITUICAO) as i64
}

/// The speed along a side after the bounce: slowed by friction.
fn frear(v: i64) -> (r: i64)
    requires
        -LIMITE_VELOCIDADE <= v <= LIMITE_VELOCIDADE,
    ensures
        r == produto(v as int, ATRITO as int),
        -LIMITE_VELOCIDADE <= r <= LIMITE_VELOCIDADE,
{
    proof {
        lema_produto_contrai(v as int, ATRITO as int);
    }
    multiplicar(v, ATRITO) as i64
}

} // verus!
